use crate::graph::Edge;
use crate::graph::EdgeType;
use crate::graph::GraphNodeType;
use crate::model::GraphModel;
use crate::simplify::is_scaffold;
use crate::simplify::Scaffold;
use vstd::prelude::*;

verus! {

impl GraphModel {
    /// The node `n` has the outgoing edges that its kind calls for: none for `End`, one
    /// for each outcome for a decision, one unconditional edge for any other node.
    pub open spec fn exits_ok(self, n: usize) -> bool {
        match self.nodes[n] {
            GraphNodeType::End => self.no_outgoing(n),
            GraphNodeType::Choice(_) => exists|t: usize, f: usize| self.two_exits(n, t, f),
            _ => exists|b: usize| self.sole_exit(n, b, EdgeType::Normal),
        }
    }

    /// Along every edge but the true branches the rank falls. So every cycle runs through
    /// the true branch of a decision, and who follows the other edges comes to an end.
    pub open spec fn forward(self, rank: spec_fn(usize) -> int) -> bool {
        forall|e: Edge| #[trigger]
            self.edges[e] > 0 && e.2 != EdgeType::Branch(true) ==> rank(e.0) > rank(e.1)
    }

    /// Every node but `end` ranks above `end`.
    pub open spec fn grounded(self, end: usize, rank: spec_fn(usize) -> int) -> bool {
        forall|n: usize| #[trigger] self.nodes.dom().contains(n) && n != end ==> rank(n) > rank(end)
    }

    /// `begin` is the one `Begin` node and nothing leads to it; `end` is the one `End`
    /// node; every node has the outgoing edges that its kind calls for; and along every edge
    /// but the true branches the rank falls towards `end`.
    pub open spec fn tidy(self, begin: usize, end: usize, rank: spec_fn(usize) -> int) -> bool {
        &&& self.wf()
        &&& self.has(begin) && self.nodes[begin] is Begin
        &&& self.has(end) && self.nodes[end] is End
        &&& forall|n: usize| #[trigger]
            self.nodes.dom().contains(n) && self.nodes[n] is Begin ==> n == begin
        &&& forall|n: usize| #[trigger] self.nodes.dom().contains(n) && self.nodes[n] is End ==> n == end
        &&& self.no_incoming(begin)
        &&& forall|n: usize| self.nodes.dom().contains(n) ==> #[trigger] self.exits_ok(n)
        &&& self.forward(rank)
        &&& self.grounded(end, rank)
    }

    /// Neither a placeholder nor an instruction without text is left.
    pub open spec fn finished(self) -> bool {
        !self.has_candidate(Scaffold::Placeholder) && !self.has_candidate(
            Scaffold::EmptyInstruction,
        )
    }

    /// The form that a finished flow graph has: exactly one `Begin` node, which no edge
    /// leads to and one edge leaves; exactly one `End` node, which no edge leaves and some
    /// edge leads to; a true branch and a false branch, and nothing else, out of every
    /// decision; one unconditional edge out of every instruction; and no scaffolding.
    pub open spec fn canonical(self) -> bool {
        &&& self.wf()
        &&& self.finished()
        &&& exists|begin: usize, end: usize|
            {
                &&& self.has(begin) && self.nodes[begin] is Begin
                &&& self.has(end) && self.nodes[end] is End
                &&& forall|n: usize| #[trigger]
                    self.nodes.dom().contains(n) && self.nodes[n] is Begin ==> n == begin
                &&& forall|n: usize| #[trigger]
                    self.nodes.dom().contains(n) && self.nodes[n] is End ==> n == end
                &&& self.no_incoming(begin)
                &&& self.no_outgoing(end)
                &&& exists|a: usize, w: EdgeType| #[trigger] self.count(a, end, w) > 0
            }
        &&& forall|n: usize| self.nodes.dom().contains(n) ==> #[trigger] self.exits_ok(n)
    }

    /// A node with one unconditional outgoing edge has exactly one outgoing edge.
    pub proof fn sole_exit_is_sole_successor(self, n: usize, b: usize)
        requires
            self.sole_exit(n, b, EdgeType::Normal),
        ensures
            self.sole_successor(n, b),
            self.has_sole_successor(n),
            self.the_successor(n) == b,
    {
        assert(self.count(n, b, EdgeType::Branch(true)) == 0);
        assert(self.count(n, b, EdgeType::Branch(false)) == 0);
        assert forall|c: usize| c != b implies #[trigger] self.links(n, c) == 0 by {
            assert(self.count(n, c, EdgeType::Normal) == 0);
            assert(self.count(n, c, EdgeType::Branch(true)) == 0);
            assert(self.count(n, c, EdgeType::Branch(false)) == 0);
        }
        assert(self.sole_successor(n, b));
        let c = self.the_successor(n);
        assert(self.sole_successor(n, c));
        if c != b {
            assert(self.links(n, c) == 0);
        }
    }

    /// Removing a placeholder that nothing leads to keeps a tidy graph tidy.
    pub proof fn removing_dead_keeps_tidy(self, begin: usize, end: usize, rank: spec_fn(usize) -> int, p: usize)
        requires
            self.tidy(begin, end, rank),
            self.dead(p),
        ensures
            self.remove_node(p).tidy(begin, end, rank),
    {
        let h = self.remove_node(p);
        assert(h.wf());
        assert forall|n: usize| h.nodes.dom().contains(n) implies #[trigger] h.exits_ok(n) by {
            assert(self.exits_ok(n));
            assert forall|c: usize, v: EdgeType| #[trigger] h.count(n, c, v) == self.count(n, c, v) by {
                if c == p {
                    assert(self.count(n, p, v) == 0);
                }
            }
            match self.nodes[n] {
                GraphNodeType::End => {
                    assert(h.no_outgoing(n));
                },
                GraphNodeType::Choice(_) => {
                    let (t, f) = choose|t: usize, f: usize| self.two_exits(n, t, f);
                    assert(h.two_exits(n, t, f));
                },
                _ => {
                    let b = choose|b: usize| self.sole_exit(n, b, EdgeType::Normal);
                    assert(h.sole_exit(n, b, EdgeType::Normal));
                },
            }
        }
        assert(h.forward(rank)) by {
            assert forall|e: Edge| #[trigger] h.edges[e] > 0 && e.2 != EdgeType::Branch(true) implies rank(e.0)
                > rank(e.1) by {
                assert(self.edges[e] > 0);
            }
        }
        assert(h.no_incoming(begin)) by {
            assert forall|a: usize, w: EdgeType| #[trigger] h.count(a, begin, w) == 0 by {
                assert(self.count(a, begin, w) == 0);
            }
        }
    }

    /// In a tidy graph every node that is scaffolding has exactly one outgoing edge, which
    /// leads to another node, and splicing the node out keeps the graph tidy.
    pub proof fn splicing_keeps_tidy(
        self,
        begin: usize,
        end: usize,
        rank: spec_fn(usize) -> int,
        p: usize,
        what: Scaffold,
    )
        requires
            self.tidy(begin, end, rank),
            self.candidate(p, what),
        ensures
            self.has_sole_successor(p),
            self.the_successor(p) != p,
            self.spliced(p, self.the_successor(p)).tidy(begin, end, rank),
    {
        assert(self.exits_ok(p));
        let next = choose|b: usize| self.sole_exit(p, b, EdgeType::Normal);
        self.sole_exit_is_sole_successor(p, next);
        assert(self.edges[(p, next, EdgeType::Normal)] > 0);
        assert(self.has(next));
        assert(next != p);
        assert(next != begin) by {
            assert(self.count(p, begin, EdgeType::Normal) == 0);
        }
        let h = self.spliced(p, next);
        assert(h.wf()) by {
            assert forall|e: Edge| #[trigger] h.edges[e] > 0 implies h.nodes.dom().contains(e.0)
                && h.nodes.dom().contains(e.1) by {
                if self.edges[e] > 0 {
                } else {
                    assert(self.edges[(e.0, p, e.2)] > 0);
                }
            }
        }
        assert(h.no_incoming(begin)) by {
            assert forall|a: usize, w: EdgeType| #[trigger] h.count(a, begin, w) == 0 by {
                assert(self.count(a, begin, w) == 0);
            }
        }
        assert forall|n: usize| h.nodes.dom().contains(n) implies #[trigger] h.exits_ok(n) by {
            assert(self.exits_ok(n));
            match self.nodes[n] {
                GraphNodeType::End => {
                    assert forall|c: usize, v: EdgeType| #[trigger] h.count(n, c, v) == 0 by {
                        assert(self.count(n, c, v) == 0);
                        assert(self.count(n, p, v) == 0);
                    }
                },
                GraphNodeType::Choice(_) => {
                    let (t, f) = choose|t: usize, f: usize| self.two_exits(n, t, f);
                    let t2 = if t == p {
                        next
                    } else {
                        t
                    };
                    let f2 = if f == p {
                        next
                    } else {
                        f
                    };
                    assert(h.two_exits(n, t2, f2)) by {
                        assert(self.count(n, t, EdgeType::Branch(true)) == 1);
                        assert(self.count(n, f, EdgeType::Branch(false)) == 1);
                        if t != next {
                            assert(!(self.count(n, next, EdgeType::Branch(true)) > 0));
                        }
                        if t != p {
                            assert(!(self.count(n, p, EdgeType::Branch(true)) > 0));
                        }
                        if f != next {
                            assert(!(self.count(n, next, EdgeType::Branch(false)) > 0));
                        }
                        if f != p {
                            assert(!(self.count(n, p, EdgeType::Branch(false)) > 0));
                        }
                        assert forall|c: usize, v: EdgeType| #[trigger]
                            h.count(n, c, v) > 0 implies (v == EdgeType::Branch(true) && c == t2)
                            || (v == EdgeType::Branch(false) && c == f2) by {
                            if self.count(n, c, v) > 0 {
                            } else {
                                assert(self.count(n, p, v) > 0);
                            }
                        }
                    }
                },
                _ => {
                    let b = choose|b: usize| self.sole_exit(n, b, EdgeType::Normal);
                    let b2 = if b == p {
                        next
                    } else {
                        b
                    };
                    assert(h.sole_exit(n, b2, EdgeType::Normal)) by {
                        assert(self.count(n, b, EdgeType::Normal) == 1);
                        if b != next {
                            assert(!(self.count(n, next, EdgeType::Normal) > 0));
                        }
                        if b != p {
                            assert(!(self.count(n, p, EdgeType::Normal) > 0));
                        }
                        assert forall|c: usize, v: EdgeType| #[trigger]
                            h.count(n, c, v) > 0 implies c == b2 && v == EdgeType::Normal by {
                            if self.count(n, c, v) > 0 {
                            } else {
                                assert(self.count(n, p, v) > 0);
                            }
                        }
                    }
                },
            }
        }
        assert(h.forward(rank)) by {
            assert forall|e: Edge| #[trigger] h.edges[e] > 0 && e.2 != EdgeType::Branch(true) implies rank(e.0)
                > rank(e.1) by {
                if self.edges[e] > 0 {
                } else {
                    assert(self.edges[(e.0, p, e.2)] > 0);
                    assert(self.edges[(p, next, EdgeType::Normal)] > 0);
                }
            }
        }
    }

    /// Every node of `self` is a node of `g`, of the same kind.
    pub open spec fn part_of(self, g: GraphModel) -> bool {
        forall|n: usize| #[trigger]
            self.nodes.dom().contains(n) ==> g.nodes.dom().contains(n) && self.nodes[n] == g.nodes[n]
    }

    /// Removing the dead placeholders keeps a tidy graph tidy.
    pub proof fn pruning_keeps_tidy(self, begin: usize, end: usize, rank: spec_fn(usize) -> int)
        requires
            self.tidy(begin, end, rank),
        ensures
            self.pruned().tidy(begin, end, rank),
        decreases self.nodes.dom().len(),
    {
        if self.has_dead() {
            self.first_dead_is_dead();
            let p = self.first_dead();
            self.removing_dead_keeps_tidy(begin, end, rank, p);
            self.remove_node(p).pruning_keeps_tidy(begin, end, rank);
        }
    }

    /// In a tidy graph splicing never gets stuck: all the scaffolding of a kind can be
    /// spliced out, and what is left is tidy, is part of the graph, and has no scaffolding
    /// of that kind.
    pub proof fn splicing_all_keeps_tidy(
        self,
        begin: usize,
        end: usize,
        rank: spec_fn(usize) -> int,
        what: Scaffold,
    )
        requires
            self.tidy(begin, end, rank),
        ensures
            self.spliced_all(what) matches Ok(h) && h.tidy(begin, end, rank) && h.part_of(self)
                && !h.has_candidate(what),
        decreases self.nodes.dom().len(),
    {
        if self.has_candidate(what) {
            self.first_candidate_is_candidate(what);
            let p = self.first_candidate(what);
            self.splicing_keeps_tidy(begin, end, rank, p, what);
            let next = self.spliced(p, self.the_successor(p));
            next.splicing_all_keeps_tidy(begin, end, rank, what);
        }
    }

    /// In a tidy graph some edge leads to `end`: who starts at any other node and follows
    /// the unconditional edges and the false branches comes to `end`.
    pub proof fn leads_to_end(self, begin: usize, end: usize, rank: spec_fn(usize) -> int, n: usize)
        requires
            self.tidy(begin, end, rank),
            self.has(n),
            n != end,
        ensures
            exists|a: usize, w: EdgeType| #[trigger] self.count(a, end, w) > 0,
        decreases rank(n) - rank(end),
    {
        assert(self.exits_ok(n));
        match self.nodes[n] {
            GraphNodeType::End => {},
            GraphNodeType::Choice(_) => {
                let (t, f) = choose|t: usize, f: usize| self.two_exits(n, t, f);
                assert(self.edges[(n, f, EdgeType::Branch(false))] > 0);
                if f == end {
                    assert(self.count(n, end, EdgeType::Branch(false)) > 0);
                } else {
                    self.leads_to_end(begin, end, rank, f);
                }
            },
            _ => {
                let b = choose|b: usize| self.sole_exit(n, b, EdgeType::Normal);
                assert(self.edges[(n, b, EdgeType::Normal)] > 0);
                if b == end {
                    assert(self.count(n, end, EdgeType::Normal) > 0);
                } else {
                    self.leads_to_end(begin, end, rank, b);
                }
            },
        }
    }

    /// A tidy graph can be simplified, and its simplified form is canonical.
    pub proof fn simplifying_tidy_gives_canonical(
        self,
        begin: usize,
        end: usize,
        rank: spec_fn(usize) -> int,
    )
        requires
            self.tidy(begin, end, rank),
        ensures
            self.simplified() matches Ok(h) && h.canonical(),
    {
        self.pruning_keeps_tidy(begin, end, rank);
        let pruned = self.pruned();
        pruned.splicing_all_keeps_tidy(begin, end, rank, Scaffold::Placeholder);
        let spliced = pruned.spliced_all(Scaffold::Placeholder)->Ok_0;
        spliced.splicing_all_keeps_tidy(begin, end, rank, Scaffold::EmptyInstruction);
        let h = spliced.spliced_all(Scaffold::EmptyInstruction)->Ok_0;
        assert(!h.has_candidate(Scaffold::Placeholder)) by {
            if h.has_candidate(Scaffold::Placeholder) {
                let n = choose|n: usize| h.candidate(n, Scaffold::Placeholder);
                assert(spliced.candidate(n, Scaffold::Placeholder));
            }
        }
        assert(h.exits_ok(end));
        h.leads_to_end(begin, end, rank, begin);
    }

    /// Simplifying is idempotent: a graph without scaffolding is its own simplified form.
    pub proof fn finished_is_fixed(self)
        requires
            self.nodes.dom().finite(),
            self.finished(),
        ensures
            self.simplified() == Ok::<GraphModel, usize>(self),
    {
        assert(!self.has_dead()) by {
            if self.has_dead() {
                let n = choose|n: usize| self.dead(n);
                assert(self.candidate(n, Scaffold::Placeholder));
            }
        }
    }

    /// What is left when the dead placeholders are gone is part of the graph.
    pub proof fn pruned_is_part(self)
        requires
            self.nodes.dom().finite(),
        ensures
            self.pruned().part_of(self),
            self.pruned().nodes.dom().finite(),
        decreases self.nodes.dom().len(),
    {
        if self.has_dead() {
            self.first_dead_is_dead();
            self.remove_node(self.first_dead()).pruned_is_part();
        }
    }

    /// What is left when the scaffolding of a kind has been spliced out is part of the
    /// graph and holds no scaffolding of that kind.
    pub proof fn spliced_all_is_part(self, what: Scaffold)
        requires
            self.nodes.dom().finite(),
        ensures
            self.spliced_all(what) matches Ok(h) ==> h.part_of(self) && !h.has_candidate(what)
                && h.nodes.dom().finite(),
        decreases self.nodes.dom().len(),
    {
        if self.has_candidate(what) {
            self.first_candidate_is_candidate(what);
            let p = self.first_candidate(what);
            if self.has_sole_successor(p) {
                self.spliced(p, self.the_successor(p)).spliced_all_is_part(what);
            }
        }
    }

    /// Every node of `g` that is no scaffolding is a node of `self`.
    pub open spec fn keeps_rest_of(self, g: GraphModel) -> bool {
        forall|n: usize| #[trigger]
            g.nodes.dom().contains(n) && !is_scaffold(g.nodes[n], Scaffold::Placeholder)
                && !is_scaffold(g.nodes[n], Scaffold::EmptyInstruction)
                ==> self.nodes.dom().contains(n)
    }

    /// Removing the dead placeholders removes placeholders only.
    pub proof fn pruned_keeps_rest(self)
        requires
            self.nodes.dom().finite(),
        ensures
            self.pruned().keeps_rest_of(self),
        decreases self.nodes.dom().len(),
    {
        if self.has_dead() {
            self.first_dead_is_dead();
            let next = self.remove_node(self.first_dead());
            next.pruned_keeps_rest();
            assert forall|n: usize| #[trigger]
                self.nodes.dom().contains(n) && !is_scaffold(self.nodes[n], Scaffold::Placeholder)
                    && !is_scaffold(
                    self.nodes[n],
                    Scaffold::EmptyInstruction,
                ) implies self.pruned().nodes.dom().contains(n) by {
                assert(next.nodes.dom().contains(n));
            }
        }
    }

    /// Splicing out scaffolding removes scaffolding only.
    pub proof fn spliced_all_keeps_rest(self, what: Scaffold)
        requires
            self.nodes.dom().finite(),
        ensures
            self.spliced_all(what) matches Ok(h) ==> h.keeps_rest_of(self),
        decreases self.nodes.dom().len(),
    {
        if self.has_candidate(what) {
            self.first_candidate_is_candidate(what);
            let p = self.first_candidate(what);
            if self.has_sole_successor(p) {
                let next = self.spliced(p, self.the_successor(p));
                next.spliced_all_keeps_rest(what);
                if next.spliced_all(what) is Ok {
                    let h = next.spliced_all(what)->Ok_0;
                    assert forall|n: usize| #[trigger]
                        self.nodes.dom().contains(n) && !is_scaffold(
                            self.nodes[n],
                            Scaffold::Placeholder,
                        ) && !is_scaffold(
                            self.nodes[n],
                            Scaffold::EmptyInstruction,
                        ) implies h.nodes.dom().contains(n) by {
                        assert(next.nodes.dom().contains(n));
                    }
                }
            }
        }
    }

    /// Simplifying loses the scaffolding and nothing else: the nodes of the simplified
    /// form are the nodes of the graph that are neither placeholders nor instructions
    /// without text, and they keep their kinds.
    pub proof fn simplifying_loses_only_scaffolding(self)
        requires
            self.nodes.dom().finite(),
        ensures
            self.simplified() matches Ok(h) ==> h.part_of(self) && h.keeps_rest_of(self)
                && h.finished(),
    {
        self.pruned_is_part();
        self.pruned_keeps_rest();
        let pruned = self.pruned();
        pruned.spliced_all_is_part(Scaffold::Placeholder);
        pruned.spliced_all_keeps_rest(Scaffold::Placeholder);
        if pruned.spliced_all(Scaffold::Placeholder) is Ok {
            let spliced = pruned.spliced_all(Scaffold::Placeholder)->Ok_0;
            spliced.spliced_all_is_part(Scaffold::EmptyInstruction);
            spliced.spliced_all_keeps_rest(Scaffold::EmptyInstruction);
            if spliced.spliced_all(Scaffold::EmptyInstruction) is Ok {
                let h = spliced.spliced_all(Scaffold::EmptyInstruction)->Ok_0;
                assert(!h.has_candidate(Scaffold::Placeholder)) by {
                    if h.has_candidate(Scaffold::Placeholder) {
                        let n = choose|n: usize| h.candidate(n, Scaffold::Placeholder);
                        assert(spliced.candidate(n, Scaffold::Placeholder));
                    }
                }
                assert(h.part_of(self)) by {
                    assert forall|n: usize| #[trigger] h.nodes.dom().contains(n) implies self.nodes.dom().contains(
                        n,
                    ) && h.nodes[n] == self.nodes[n] by {
                        assert(spliced.nodes.dom().contains(n));
                        assert(pruned.nodes.dom().contains(n));
                    }
                }
                assert(h.keeps_rest_of(self)) by {
                    assert forall|n: usize| #[trigger]
                        self.nodes.dom().contains(n) && !is_scaffold(
                            self.nodes[n],
                            Scaffold::Placeholder,
                        ) && !is_scaffold(
                            self.nodes[n],
                            Scaffold::EmptyInstruction,
                        ) implies h.nodes.dom().contains(n) by {
                        assert(pruned.nodes.dom().contains(n));
                        assert(spliced.nodes.dom().contains(n));
                    }
                }
            }
        }
    }

    /// Simplifying twice is simplifying once: the simplified form of a graph is its own
    /// simplified form.
    pub proof fn simplifying_is_idempotent(self)
        requires
            self.nodes.dom().finite(),
        ensures
            self.simplified() matches Ok(h) ==> h.simplified() == Ok::<GraphModel, usize>(h),
    {
        self.pruned_is_part();
        let pruned = self.pruned();
        pruned.spliced_all_is_part(Scaffold::Placeholder);
        if pruned.spliced_all(Scaffold::Placeholder) is Ok {
            let spliced = pruned.spliced_all(Scaffold::Placeholder)->Ok_0;
            spliced.spliced_all_is_part(Scaffold::EmptyInstruction);
            if spliced.spliced_all(Scaffold::EmptyInstruction) is Ok {
                let h = spliced.spliced_all(Scaffold::EmptyInstruction)->Ok_0;
                assert(!h.has_candidate(Scaffold::Placeholder)) by {
                    if h.has_candidate(Scaffold::Placeholder) {
                        let n = choose|n: usize| h.candidate(n, Scaffold::Placeholder);
                        assert(spliced.candidate(n, Scaffold::Placeholder));
                    }
                }
                h.finished_is_fixed();
            }
        }
    }
}

/// A node kind from which one unconditional edge may lead: anything but `End` and a
/// decision.
pub open spec fn plain(kind: GraphNodeType) -> bool {
    !(kind is End) && !(kind is Choice)
}

/// The ranking `rank` with the rank of `id` set to `r`.
pub open spec fn ranked_at(rank: spec_fn(usize) -> int, id: usize, r: int) -> spec_fn(usize) -> int {
    |x: usize|
        if x == id {
            r
        } else {
            rank(x)
        }
}

impl GraphModel {
    /// What holds of the node `n` of a graph under construction: a node of `open` has no
    /// outgoing edge yet, a decision of `half` has its true branch only, and any other
    /// node has all the outgoing edges that its kind calls for.
    pub open spec fn settled(self, n: usize, open: Set<usize>, half: Set<usize>) -> bool {
        if open.contains(n) {
            self.no_outgoing(n)
        } else if half.contains(n) {
            self.nodes[n] is Choice && exists|t: usize| self.sole_exit(n, t, EdgeType::Branch(true))
        } else {
            self.exits_ok(n)
        }
    }

    /// What construction keeps true of a graph from its start to its end. `tidy` is the
    /// case in which no node waits for an edge.
    pub open spec fn sound(
        self,
        begin: usize,
        end: usize,
        rank: spec_fn(usize) -> int,
        open: Set<usize>,
        half: Set<usize>,
    ) -> bool {
        &&& self.wf()
        &&& self.has(begin) && self.nodes[begin] is Begin
        &&& self.has(end) && self.nodes[end] is End
        &&& forall|n: usize| #[trigger]
            self.nodes.dom().contains(n) && self.nodes[n] is Begin ==> n == begin
        &&& forall|n: usize| #[trigger] self.nodes.dom().contains(n) && self.nodes[n] is End ==> n == end
        &&& self.no_incoming(begin)
        &&& self.forward(rank)
        &&& self.grounded(end, rank)
        &&& forall|n: usize| open.contains(n) ==> #[trigger] self.nodes.dom().contains(n)
        &&& forall|n: usize|
            half.contains(n) ==> #[trigger] self.nodes.dom().contains(n) && self.nodes[n] is Choice
        &&& forall|n: usize| self.nodes.dom().contains(n) ==> #[trigger] self.settled(n, open, half)
    }

    /// A new node enters a sound graph as one that waits for its outgoing edges.
    pub proof fn sound_with_node(
        self,
        begin: usize,
        end: usize,
        rank: spec_fn(usize) -> int,
        open: Set<usize>,
        half: Set<usize>,
        id: usize,
        kind: GraphNodeType,
        r: int,
    )
        requires
            self.sound(begin, end, rank, open, half),
            !self.has(id),
            !(kind is Begin),
            !(kind is End),
            r > rank(end),
        ensures
            self.add_node(id, kind).sound(begin, end, ranked_at(rank, id, r), open.insert(id), half),
    {
        let h = self.add_node(id, kind);
        let rank2 = ranked_at(rank, id, r);
        assert(h.forward(rank2)) by {
            assert forall|e: Edge| #[trigger] h.edges[e] > 0 && e.2 != EdgeType::Branch(true) implies rank2(
                e.0,
            ) > rank2(e.1) by {
                assert(self.edges[e] > 0);
            }
        }
        assert forall|n: usize| h.nodes.dom().contains(n) implies #[trigger] h.settled(
            n,
            open.insert(id),
            half,
        ) by {
            if n == id {
                assert forall|b: usize, w: EdgeType| #[trigger] h.count(id, b, w) == 0 by {
                    if self.edges[(id, b, w)] > 0 {
                    }
                }
            } else {
                assert(self.settled(n, open, half));
                h.exits_carry_over(self, n);
            }
        }
        assert(h.no_incoming(begin)) by {
            assert forall|a: usize, w: EdgeType| #[trigger] h.count(a, begin, w) == 0 by {
                assert(self.count(a, begin, w) == 0);
            }
        }
    }

    /// What holds of the outgoing edges of a node carries over to a graph in which the
    /// node has the same kind and the same outgoing edges.
    pub proof fn exits_carry_over(self, old: GraphModel, n: usize)
        requires
            self.nodes[n] == old.nodes[n],
            forall|c: usize, v: EdgeType| #[trigger] self.count(n, c, v) == old.count(n, c, v),
        ensures
            old.no_outgoing(n) ==> self.no_outgoing(n),
            old.exits_ok(n) ==> self.exits_ok(n),
            forall|t: usize, w: EdgeType| old.sole_exit(n, t, w) ==> self.sole_exit(n, t, w),
            (exists|t: usize| old.sole_exit(n, t, EdgeType::Branch(true))) ==> (exists|t: usize|
                self.sole_exit(n, t, EdgeType::Branch(true))),
    {
        if old.no_outgoing(n) {
            assert forall|c: usize, v: EdgeType| #[trigger] self.count(n, c, v) == 0 by {
                assert(old.count(n, c, v) == 0);
            }
        }
        assert forall|t: usize, w: EdgeType| old.sole_exit(n, t, w) implies self.sole_exit(n, t, w) by {
            assert(self.count(n, t, w) == old.count(n, t, w));
            assert forall|c: usize, v: EdgeType| #[trigger] self.count(n, c, v) > 0 implies c == t && v
                == w by {
                assert(old.count(n, c, v) > 0);
            }
        }
        if exists|t: usize| old.sole_exit(n, t, EdgeType::Branch(true)) {
            let t = choose|t: usize| old.sole_exit(n, t, EdgeType::Branch(true));
            assert(self.sole_exit(n, t, EdgeType::Branch(true)));
        }
        if old.exits_ok(n) {
            match old.nodes[n] {
                GraphNodeType::End => {},
                GraphNodeType::Choice(_) => {
                    let (t, f) = choose|t: usize, f: usize| old.two_exits(n, t, f);
                    assert(self.count(n, t, EdgeType::Branch(true)) == old.count(
                        n,
                        t,
                        EdgeType::Branch(true),
                    ));
                    assert(self.count(n, f, EdgeType::Branch(false)) == old.count(
                        n,
                        f,
                        EdgeType::Branch(false),
                    ));
                    assert forall|c: usize, v: EdgeType| #[trigger] self.count(n, c, v) > 0 implies (v
                        == EdgeType::Branch(true) && c == t) || (v == EdgeType::Branch(false) && c
                        == f) by {
                        assert(old.count(n, c, v) > 0);
                    }
                    assert(self.two_exits(n, t, f));
                },
                _ => {
                    let b = choose|b: usize| old.sole_exit(n, b, EdgeType::Normal);
                    assert(self.sole_exit(n, b, EdgeType::Normal));
                },
            }
        }
    }

    /// In a sound graph a waiting node gets its one unconditional edge.
    pub proof fn sound_with_exit(
        self,
        begin: usize,
        end: usize,
        rank: spec_fn(usize) -> int,
        open: Set<usize>,
        half: Set<usize>,
        a: usize,
        b: usize,
    )
        requires
            self.sound(begin, end, rank, open, half),
            open.contains(a),
            plain(self.nodes[a]),
            self.has(b),
            b != begin,
            rank(a) > rank(b),
        ensures
            self.add_edge(a, b, EdgeType::Normal).sound(begin, end, rank, open.remove(a), half),
    {
        let h = self.add_edge(a, b, EdgeType::Normal);
        self.sound_with_edge(begin, end, rank, open, half, a, b, EdgeType::Normal);
        assert forall|n: usize| h.nodes.dom().contains(n) implies #[trigger] h.settled(
            n,
            open.remove(a),
            half,
        ) by {
            assert(self.settled(n, open, half));
            if n == a {
                assert forall|c: usize, v: EdgeType| #[trigger] h.count(a, c, v) > 0 implies c == b && v
                    == EdgeType::Normal by {
                    if c != b || v != EdgeType::Normal {
                        assert(self.count(a, c, v) == 0);
                    }
                }
                assert(self.count(a, b, EdgeType::Normal) == 0);
                assert(h.sole_exit(a, b, EdgeType::Normal));
                assert(!half.contains(a));
            } else {
                h.exits_carry_over(self, n);
            }
        }
    }

    /// In a sound graph a waiting decision gets its true branch.
    pub proof fn sound_with_true(
        self,
        begin: usize,
        end: usize,
        rank: spec_fn(usize) -> int,
        open: Set<usize>,
        half: Set<usize>,
        a: usize,
        b: usize,
    )
        requires
            self.sound(begin, end, rank, open, half),
            open.contains(a),
            self.nodes[a] is Choice,
            self.has(b),
            b != begin,
        ensures
            self.add_edge(a, b, EdgeType::Branch(true)).sound(
                begin,
                end,
                rank,
                open.remove(a),
                half.insert(a),
            ),
    {
        let h = self.add_edge(a, b, EdgeType::Branch(true));
        self.sound_with_edge(begin, end, rank, open, half, a, b, EdgeType::Branch(true));
        assert forall|n: usize| h.nodes.dom().contains(n) implies #[trigger] h.settled(
            n,
            open.remove(a),
            half.insert(a),
        ) by {
            assert(self.settled(n, open, half));
            if n == a {
                assert forall|c: usize, v: EdgeType| #[trigger] h.count(a, c, v) > 0 implies c == b && v
                    == EdgeType::Branch(true) by {
                    if c != b || v != EdgeType::Branch(true) {
                        assert(self.count(a, c, v) == 0);
                    }
                }
                assert(self.count(a, b, EdgeType::Branch(true)) == 0);
                assert(h.sole_exit(a, b, EdgeType::Branch(true)));
            } else {
                h.exits_carry_over(self, n);
            }
        }
    }

    /// In a sound graph a decision with its true branch gets its false branch.
    pub proof fn sound_with_false(
        self,
        begin: usize,
        end: usize,
        rank: spec_fn(usize) -> int,
        open: Set<usize>,
        half: Set<usize>,
        a: usize,
        b: usize,
    )
        requires
            self.sound(begin, end, rank, open, half),
            half.contains(a),
            !open.contains(a),
            self.has(b),
            b != begin,
            rank(a) > rank(b),
        ensures
            self.add_edge(a, b, EdgeType::Branch(false)).sound(begin, end, rank, open, half.remove(a)),
    {
        let h = self.add_edge(a, b, EdgeType::Branch(false));
        self.sound_with_edge(begin, end, rank, open, half, a, b, EdgeType::Branch(false));
        assert forall|n: usize| h.nodes.dom().contains(n) implies #[trigger] h.settled(
            n,
            open,
            half.remove(a),
        ) by {
            assert(self.settled(n, open, half));
            if n == a {
                let t = choose|t: usize| self.sole_exit(a, t, EdgeType::Branch(true));
                assert(self.count(a, b, EdgeType::Branch(false)) == 0);
                assert forall|c: usize, v: EdgeType| #[trigger] h.count(a, c, v) > 0 implies (v
                    == EdgeType::Branch(true) && c == t) || (v == EdgeType::Branch(false) && c
                    == b) by {
                    if !(v == EdgeType::Branch(false) && c == b) {
                        assert(self.count(a, c, v) > 0);
                    }
                }
                assert(h.two_exits(a, t, b));
            } else {
                h.exits_carry_over(self, n);
            }
        }
    }

    /// What an edge between two nodes of a sound graph leaves untouched, whatever the
    /// edge: the nodes, the two ends, and the fall of the ranks.
    proof fn sound_with_edge(
        self,
        begin: usize,
        end: usize,
        rank: spec_fn(usize) -> int,
        open: Set<usize>,
        half: Set<usize>,
        a: usize,
        b: usize,
        w: EdgeType,
    )
        requires
            self.sound(begin, end, rank, open, half),
            self.has(a),
            self.has(b),
            b != begin,
            w != EdgeType::Branch(true) ==> rank(a) > rank(b),
        ensures
            self.add_edge(a, b, w).wf(),
            self.add_edge(a, b, w).forward(rank),
            self.add_edge(a, b, w).no_incoming(begin),
            self.add_edge(a, b, w).nodes == self.nodes,
            forall|n: usize, c: usize, v: EdgeType|
                n != a ==> #[trigger] self.add_edge(a, b, w).count(n, c, v) == self.count(n, c, v),
    {
        let h = self.add_edge(a, b, w);
        assert(h.forward(rank)) by {
            assert forall|e: Edge| #[trigger] h.edges[e] > 0 && e.2 != EdgeType::Branch(true) implies rank(
                e.0,
            ) > rank(e.1) by {
                if e != (a, b, w) {
                    assert(self.edges[e] > 0);
                }
            }
        }
        assert(h.no_incoming(begin)) by {
            assert forall|s: usize, v: EdgeType| #[trigger] h.count(s, begin, v) == 0 by {
                assert(self.count(s, begin, v) == 0);
            }
        }
    }
}

} // verus!
