use crate::ast::Ast;
use crate::ast::AstNode;
use crate::builder::before_child;
use crate::builder::first_error;
use crate::builder::first_error_among;
use crate::builder::raw_graph;
use crate::builder::translate;
use crate::builder::Built;
use crate::builder::GraphContext;
use crate::builder::Layout;
use crate::graph::EdgeType;
use crate::graph::GraphNodeType;
use crate::laws::plain;
use crate::laws::ranked_at;
use crate::model::GraphModel;
use vstd::prelude::*;

verus! {

/// How many nodes the translation of `ast` creates.
pub open spec fn need(ast: Ast) -> nat
    decreases ast, 1nat, 0nat,
{
    match ast.node {
        AstNode::Compound(v) => if v.len() == 0 {
            2
        } else {
            v.len() as nat + 1 + need_among(ast, v.len() as nat)
        },
        AstNode::Stat(_) => 1,
        AstNode::Continue(_) => 1,
        AstNode::Break(_) => 1,
        AstNode::Return(_) => 1,
        AstNode::If { cond, body, otherwise } => 3 + need(*body) + match otherwise {
            Some(o) => 1 + need(*o),
            None => 0,
        },
        AstNode::While { cond, body } => 3 + need(*body),
        AstNode::DoWhile { cond, body } => 3 + need(*body),
        AstNode::For { init, cond, upd, body } => 5 + need(*body),
        _ => 0,
    }
}

/// How many nodes the translations of the first `k` statements of the block `ast` create.
pub open spec fn need_among(ast: Ast, k: nat) -> nat
    decreases ast, 0nat, k,
{
    if k == 0 {
        0
    } else {
        match ast.node {
            AstNode::Compound(v) => if k <= v.len() {
                need_among(ast, (k - 1) as nat) + need(v[k - 1])
            } else {
                0
            },
            _ => 0,
        }
    }
}

/// The node `t` is not `begin`, and it ranks below `lo`.
pub open spec fn low(g: GraphModel, rank: spec_fn(usize) -> int, t: usize, lo: int, begin: usize) -> bool {
    t != begin && rank(t) < lo
}

/// Every node that control can leave a statement for is low.
pub open spec fn targets_low(
    ctx: GraphContext,
    g: GraphModel,
    rank: spec_fn(usize) -> int,
    lo: int,
    begin: usize,
) -> bool {
    &&& low(g, rank, ctx.local_sink, lo, begin)
    &&& low(g, rank, ctx.global_end, lo, begin)
    &&& ctx.break_target matches Some(b) ==> low(g, rank, b, lo, begin)
    &&& ctx.continue_target matches Some(c) ==> low(g, rank, c, lo, begin)
}

/// Every node of `old` is a node of `new`, of the same kind and rank.
pub open spec fn kept(
    old: GraphModel,
    new: GraphModel,
    rank: spec_fn(usize) -> int,
    new_rank: spec_fn(usize) -> int,
) -> bool {
    forall|n: usize| #[trigger]
        old.nodes.dom().contains(n) ==> new.nodes.dom().contains(n) && new.nodes[n] == old.nodes[n]
            && new_rank(n) == rank(n)
}

/// What the translation of a statement starts from: a sound construction in which the
/// statement's source waits for its edge and ranks at least `hi`, while everything that
/// control can leave the statement for ranks below the room that the statement needs.
pub open spec fn ready(
    ast: Ast,
    ctx: GraphContext,
    st: Built,
    al: Layout,
    begin: usize,
    end: usize,
    rank: spec_fn(usize) -> int,
    open: Set<usize>,
    half: Set<usize>,
    hi: int,
) -> bool {
    &&& first_error(ast, ctx.break_target is Some, ctx.continue_target is Some) is None
    &&& translate(ast, ctx, st, al).fresh
    &&& st.graph.sound(begin, end, rank, open, half)
    &&& ctx.within(st.graph)
    &&& open.contains(ctx.local_source)
    &&& plain(st.graph.nodes[ctx.local_source])
    &&& rank(ctx.local_source) >= hi
    &&& targets_low(ctx, st.graph, rank, hi - need(ast), begin)
}

/// What the translation of a statement arrives at: a sound construction in which the
/// statement's source has its edge and no node of the statement waits for one.
pub open spec fn done(
    ast: Ast,
    ctx: GraphContext,
    st: Built,
    al: Layout,
    begin: usize,
    end: usize,
    rank: spec_fn(usize) -> int,
    open: Set<usize>,
    half: Set<usize>,
    out_rank: spec_fn(usize) -> int,
) -> bool {
    &&& translate(ast, ctx, st, al).graph.sound(
        begin,
        end,
        out_rank,
        open.remove(ctx.local_source),
        half,
    )
    &&& kept(st.graph, translate(ast, ctx, st, al).graph, rank, out_rank)
}

/// A translation hands out unused indices only if those handed out before it were.
pub proof fn fresh_from_start(ast: Ast, ctx: GraphContext, st: Built, al: Layout)
    ensures
        translate(ast, ctx, st, al).fresh ==> st.fresh,
    decreases ast, 1nat, 0nat,
{
    match ast.node {
        AstNode::Compound(v) => {
            if v.len() > 0 {
                let n = v.len() as int;
                let opened = st.node(al.own[0], GraphNodeType::Dummy).node(
                    al.own[1],
                    GraphNodeType::Dummy,
                ).edge(ctx.local_source, al.own[0], EdgeType::Normal);
                let before = before_child(ast, (n - 1) as nat, ctx, opened, al);
                fresh_from_start(v[n - 1], ctx.window(al.own[n - 1], al.own[n]), before, al.kids[n - 1]);
                fresh_from_start_of_block(ast, (n - 1) as nat, ctx, opened, al);
            }
        },
        AstNode::If { cond, body, otherwise } => {
            let test = al.own[0];
            let sub_source = al.own[1];
            let sub_sink = al.own[2];
            let opened = st.node(test, GraphNodeType::Choice(cond.string)).node(
                sub_source,
                GraphNodeType::Dummy,
            ).node(sub_sink, GraphNodeType::Dummy).edge(
                ctx.local_source,
                test,
                EdgeType::Normal,
            ).edge(test, sub_source, EdgeType::Branch(true)).edge(
                sub_sink,
                ctx.local_sink,
                EdgeType::Normal,
            );
            let inner = ctx.window(sub_source, sub_sink);
            fresh_from_start(*body, inner, opened, al.kids[0]);
            let taken = translate(*body, inner, opened, al.kids[0]);
            match otherwise {
                Some(o) => {
                    fresh_from_start(
                        *o,
                        ctx.window(al.own[3], sub_sink),
                        taken.node(al.own[3], GraphNodeType::Dummy).edge(
                            test,
                            al.own[3],
                            EdgeType::Branch(false),
                        ),
                        al.kids[1],
                    );
                },
                None => {},
            }
        },
        AstNode::While { cond, body } => {
            let test = al.own[0];
            let sub_source = al.own[1];
            let sub_sink = al.own[2];
            let opened = st.node(test, GraphNodeType::Choice(cond.string)).node(
                sub_source,
                GraphNodeType::Dummy,
            ).node(sub_sink, GraphNodeType::Dummy).edge(
                ctx.local_source,
                test,
                EdgeType::Normal,
            ).edge(test, sub_source, EdgeType::Branch(true)).edge(
                test,
                ctx.local_sink,
                EdgeType::Branch(false),
            ).edge(sub_sink, test, EdgeType::Normal);
            fresh_from_start(
                *body,
                ctx.looping(sub_source, sub_sink, test, ctx.local_sink),
                opened,
                al.kids[0],
            );
        },
        AstNode::DoWhile { cond, body } => {
            let sub_source = al.own[0];
            let sub_sink = al.own[1];
            let test = al.own[2];
            let opened = st.node(sub_source, GraphNodeType::Dummy).node(
                sub_sink,
                GraphNodeType::Dummy,
            ).node(test, GraphNodeType::Choice(cond.string)).edge(
                ctx.local_source,
                sub_source,
                EdgeType::Normal,
            ).edge(sub_sink, test, EdgeType::Normal).edge(
                test,
                sub_source,
                EdgeType::Branch(true),
            ).edge(test, ctx.local_sink, EdgeType::Branch(false));
            fresh_from_start(
                *body,
                ctx.looping(sub_source, sub_sink, test, ctx.local_sink),
                opened,
                al.kids[0],
            );
        },
        AstNode::For { init, cond, upd, body } => {
            let sub_source = al.own[0];
            let sub_sink = al.own[1];
            let test = al.own[2];
            let first = al.own[3];
            let step = al.own[4];
            let opened = st.node(sub_source, GraphNodeType::Dummy).node(
                sub_sink,
                GraphNodeType::Dummy,
            ).node(test, GraphNodeType::Choice(cond.string)).node(
                first,
                GraphNodeType::Node(init.string),
            ).node(step, GraphNodeType::Node(upd.string)).edge(
                ctx.local_source,
                first,
                EdgeType::Normal,
            ).edge(first, test, EdgeType::Normal).edge(
                test,
                sub_source,
                EdgeType::Branch(true),
            ).edge(test, ctx.local_sink, EdgeType::Branch(false)).edge(
                sub_sink,
                step,
                EdgeType::Normal,
            ).edge(step, test, EdgeType::Normal);
            fresh_from_start(
                *body,
                ctx.looping(sub_source, sub_sink, step, ctx.local_sink),
                opened,
                al.kids[0],
            );
        },
        _ => {},
    }
}

/// The same for the statements of a block up to statement `k`.
pub proof fn fresh_from_start_of_block(ast: Ast, k: nat, ctx: GraphContext, opened: Built, al: Layout)
    ensures
        before_child(ast, k, ctx, opened, al).fresh ==> opened.fresh,
    decreases ast, 0nat, k,
{
    if k > 0 {
        match ast.node {
            AstNode::Compound(v) => {
                if k < v.len() {
                    let before = before_child(ast, (k - 1) as nat, ctx, opened, al);
                    fresh_from_start(
                        v[k - 1],
                        ctx.window(al.own[k - 1], al.own[k as int]),
                        before,
                        al.kids[k - 1],
                    );
                    fresh_from_start_of_block(ast, (k - 1) as nat, ctx, opened, al);
                }
            },
            _ => {},
        }
    }
}

/// What is kept from a first graph to a second and from the second to a third is kept
/// from the first to the third.
proof fn kept_chain(
    a: GraphModel,
    b: GraphModel,
    c: GraphModel,
    ra: spec_fn(usize) -> int,
    rb: spec_fn(usize) -> int,
    rc: spec_fn(usize) -> int,
)
    requires
        kept(a, b, ra, rb),
        kept(b, c, rb, rc),
    ensures
        kept(a, c, ra, rc),
{
    assert forall|n: usize| #[trigger] a.nodes.dom().contains(n) implies c.nodes.dom().contains(n)
        && c.nodes[n] == a.nodes[n] && rc(n) == ra(n) by {
        assert(b.nodes.dom().contains(n));
    }
}

/// Translating a statement keeps a construction sound: the statement's source gets its
/// edge, every node of the statement gets the outgoing edges that its kind calls for, and
/// no cycle avoids the decisions. The result is the ranking that witnesses the last.
pub proof fn translation_is_sound(
    ast: Ast,
    ctx: GraphContext,
    st: Built,
    al: Layout,
    begin: usize,
    end: usize,
    rank: spec_fn(usize) -> int,
    open: Set<usize>,
    half: Set<usize>,
    hi: int,
) -> (out_rank: spec_fn(usize) -> int)
    requires
        ready(ast, ctx, st, al, begin, end, rank, open, half, hi),
    ensures
        done(ast, ctx, st, al, begin, end, rank, open, half, out_rank),
    decreases ast, 2nat, 0nat,
{
    match ast.node {
        AstNode::Compound(_) => block_is_sound(ast, ctx, st, al, begin, end, rank, open, half, hi),
        AstNode::Stat(e) => jump_is_sound(
            ctx,
            st,
            al.own[0],
            GraphNodeType::Node(e.string),
            ctx.local_sink,
            begin,
            end,
            rank,
            open,
            half,
            hi,
        ),
        AstNode::Continue(s) => jump_is_sound(
            ctx,
            st,
            al.own[0],
            GraphNodeType::Node(s),
            ctx.continue_target.unwrap(),
            begin,
            end,
            rank,
            open,
            half,
            hi,
        ),
        AstNode::Break(s) => jump_is_sound(
            ctx,
            st,
            al.own[0],
            GraphNodeType::Node(s),
            ctx.break_target.unwrap(),
            begin,
            end,
            rank,
            open,
            half,
            hi,
        ),
        AstNode::Return(e) => jump_is_sound(
            ctx,
            st,
            al.own[0],
            GraphNodeType::Node(e.string),
            ctx.global_end,
            begin,
            end,
            rank,
            open,
            half,
            hi,
        ),
        AstNode::If { .. } => if_is_sound(ast, ctx, st, al, begin, end, rank, open, half, hi),
        AstNode::While { .. } => while_is_sound(ast, ctx, st, al, begin, end, rank, open, half, hi),
        AstNode::DoWhile { .. } => do_while_is_sound(
            ast,
            ctx,
            st,
            al,
            begin,
            end,
            rank,
            open,
            half,
            hi,
        ),
        AstNode::For { .. } => for_is_sound(ast, ctx, st, al, begin, end, rank, open, half, hi),
        _ => rank,
    }
}

/// One instruction between the source and the node `target` keeps a construction sound.
proof fn jump_is_sound(
    ctx: GraphContext,
    st: Built,
    current: usize,
    kind: GraphNodeType,
    target: usize,
    begin: usize,
    end: usize,
    rank: spec_fn(usize) -> int,
    open: Set<usize>,
    half: Set<usize>,
    hi: int,
) -> (out_rank: spec_fn(usize) -> int)
    requires
        kind is Node,
        st.graph.sound(begin, end, rank, open, half),
        !st.graph.has(current),
        st.graph.has(target),
        open.contains(ctx.local_source),
        plain(st.graph.nodes[ctx.local_source]),
        rank(ctx.local_source) >= hi,
        low(st.graph, rank, target, hi - 1, begin),
        rank(end) < hi - 1,
    ensures
        st.graph.add_node(current, kind).add_edge(
            ctx.local_source,
            current,
            EdgeType::Normal,
        ).add_edge(current, target, EdgeType::Normal).sound(
            begin,
            end,
            out_rank,
            open.remove(ctx.local_source),
            half,
        ),
        kept(
            st.graph,
            st.graph.add_node(current, kind).add_edge(
                ctx.local_source,
                current,
                EdgeType::Normal,
            ).add_edge(current, target, EdgeType::Normal),
            rank,
            out_rank,
        ),
{
    let source = ctx.local_source;
    let g0 = st.graph;
    g0.sound_with_node(begin, end, rank, open, half, current, kind, hi - 1);
    let r1 = ranked_at(rank, current, hi - 1);
    let g1 = g0.add_node(current, kind);
    let o1 = open.insert(current);
    g1.sound_with_exit(begin, end, r1, o1, half, source, current);
    let g2 = g1.add_edge(source, current, EdgeType::Normal);
    let o2 = o1.remove(source);
    g2.sound_with_exit(begin, end, r1, o2, half, current, target);
    assert(o2.remove(current) =~= open.remove(source));
    r1
}

/// `translation_is_sound` for `while`.
proof fn while_is_sound(
    ast: Ast,
    ctx: GraphContext,
    st: Built,
    al: Layout,
    begin: usize,
    end: usize,
    rank: spec_fn(usize) -> int,
    open: Set<usize>,
    half: Set<usize>,
    hi: int,
) -> (out_rank: spec_fn(usize) -> int)
    requires
        ast.node is While,
        ready(ast, ctx, st, al, begin, end, rank, open, half, hi),
    ensures
        done(ast, ctx, st, al, begin, end, rank, open, half, out_rank),
    decreases ast, 1nat, 0nat,
{
    let source = ctx.local_source;
    let sink = ctx.local_sink;
    match ast.node {
        AstNode::While { cond, body } => {
            let test = al.own[0];
            let sub_source = al.own[1];
            let sub_sink = al.own[2];
            let lo = hi - need(ast);
            let opened = st.node(test, GraphNodeType::Choice(cond.string)).node(
                sub_source,
                GraphNodeType::Dummy,
            ).node(sub_sink, GraphNodeType::Dummy).edge(source, test, EdgeType::Normal).edge(
                test,
                sub_source,
                EdgeType::Branch(true),
            ).edge(test, sink, EdgeType::Branch(false)).edge(sub_sink, test, EdgeType::Normal);
            let inner = ctx.looping(sub_source, sub_sink, test, sink);
            fresh_from_start(*body, inner, opened, al.kids[0]);
            let g0 = st.graph;
            g0.sound_with_node(
                begin,
                end,
                rank,
                open,
                half,
                test,
                GraphNodeType::Choice(cond.string),
                lo,
            );
            let g1 = g0.add_node(test, GraphNodeType::Choice(cond.string));
            let r1 = ranked_at(rank, test, lo);
            let o1 = open.insert(test);
            g1.sound_with_node(begin, end, r1, o1, half, sub_source, GraphNodeType::Dummy, hi - 1);
            let g2 = g1.add_node(sub_source, GraphNodeType::Dummy);
            let r2 = ranked_at(r1, sub_source, hi - 1);
            let o2 = o1.insert(sub_source);
            g2.sound_with_node(begin, end, r2, o2, half, sub_sink, GraphNodeType::Dummy, lo + 1);
            let g3 = g2.add_node(sub_sink, GraphNodeType::Dummy);
            let r3 = ranked_at(r2, sub_sink, lo + 1);
            let o3 = o2.insert(sub_sink);
            g3.sound_with_exit(begin, end, r3, o3, half, source, test);
            let g4 = g3.add_edge(source, test, EdgeType::Normal);
            let o4 = o3.remove(source);
            g4.sound_with_true(begin, end, r3, o4, half, test, sub_source);
            let g5 = g4.add_edge(test, sub_source, EdgeType::Branch(true));
            let o5 = o4.remove(test);
            let h5 = half.insert(test);
            g5.sound_with_false(begin, end, r3, o5, h5, test, sink);
            let g6 = g5.add_edge(test, sink, EdgeType::Branch(false));
            let h6 = h5.remove(test);
            assert(h6 =~= half);
            g6.sound_with_exit(begin, end, r3, o5, half, sub_sink, test);
            let g7 = g6.add_edge(sub_sink, test, EdgeType::Normal);
            let o7 = o5.remove(sub_sink);
            assert(opened.graph == g7);
            assert(kept(g0, g7, rank, r3));
            let out_rank = translation_is_sound(
                *body,
                inner,
                opened,
                al.kids[0],
                begin,
                end,
                r3,
                o7,
                half,
                hi - 1,
            );
            kept_chain(g0, g7, translate(*body, inner, opened, al.kids[0]).graph, rank, r3, out_rank);
            assert(o7.remove(sub_source) =~= open.remove(source));
            out_rank
        },
        _ => rank,
    }
}

/// `translation_is_sound` for `do ... while`.
proof fn do_while_is_sound(
    ast: Ast,
    ctx: GraphContext,
    st: Built,
    al: Layout,
    begin: usize,
    end: usize,
    rank: spec_fn(usize) -> int,
    open: Set<usize>,
    half: Set<usize>,
    hi: int,
) -> (out_rank: spec_fn(usize) -> int)
    requires
        ast.node is DoWhile,
        ready(ast, ctx, st, al, begin, end, rank, open, half, hi),
    ensures
        done(ast, ctx, st, al, begin, end, rank, open, half, out_rank),
    decreases ast, 1nat, 0nat,
{
    let source = ctx.local_source;
    let sink = ctx.local_sink;
    match ast.node {
        AstNode::DoWhile { cond, body } => {
            let sub_source = al.own[0];
            let sub_sink = al.own[1];
            let test = al.own[2];
            let lo = hi - need(ast);
            let opened = st.node(sub_source, GraphNodeType::Dummy).node(
                sub_sink,
                GraphNodeType::Dummy,
            ).node(test, GraphNodeType::Choice(cond.string)).edge(
                source,
                sub_source,
                EdgeType::Normal,
            ).edge(sub_sink, test, EdgeType::Normal).edge(
                test,
                sub_source,
                EdgeType::Branch(true),
            ).edge(test, sink, EdgeType::Branch(false));
            let inner = ctx.looping(sub_source, sub_sink, test, sink);
            fresh_from_start(*body, inner, opened, al.kids[0]);
            let g0 = st.graph;
            g0.sound_with_node(begin, end, rank, open, half, sub_source, GraphNodeType::Dummy, hi - 1);
            let g1 = g0.add_node(sub_source, GraphNodeType::Dummy);
            let r1 = ranked_at(rank, sub_source, hi - 1);
            let o1 = open.insert(sub_source);
            g1.sound_with_node(begin, end, r1, o1, half, sub_sink, GraphNodeType::Dummy, lo + 1);
            let g2 = g1.add_node(sub_sink, GraphNodeType::Dummy);
            let r2 = ranked_at(r1, sub_sink, lo + 1);
            let o2 = o1.insert(sub_sink);
            g2.sound_with_node(
                begin,
                end,
                r2,
                o2,
                half,
                test,
                GraphNodeType::Choice(cond.string),
                lo,
            );
            let g3 = g2.add_node(test, GraphNodeType::Choice(cond.string));
            let r3 = ranked_at(r2, test, lo);
            let o3 = o2.insert(test);
            g3.sound_with_exit(begin, end, r3, o3, half, source, sub_source);
            let g4 = g3.add_edge(source, sub_source, EdgeType::Normal);
            let o4 = o3.remove(source);
            g4.sound_with_exit(begin, end, r3, o4, half, sub_sink, test);
            let g5 = g4.add_edge(sub_sink, test, EdgeType::Normal);
            let o5 = o4.remove(sub_sink);
            g5.sound_with_true(begin, end, r3, o5, half, test, sub_source);
            let g6 = g5.add_edge(test, sub_source, EdgeType::Branch(true));
            let o6 = o5.remove(test);
            let h6 = half.insert(test);
            g6.sound_with_false(begin, end, r3, o6, h6, test, sink);
            let g7 = g6.add_edge(test, sink, EdgeType::Branch(false));
            assert(h6.remove(test) =~= half);
            assert(opened.graph == g7);
            assert(kept(g0, g7, rank, r3));
            let out_rank = translation_is_sound(
                *body,
                inner,
                opened,
                al.kids[0],
                begin,
                end,
                r3,
                o6,
                half,
                hi - 1,
            );
            kept_chain(g0, g7, translate(*body, inner, opened, al.kids[0]).graph, rank, r3, out_rank);
            assert(o6.remove(sub_source) =~= open.remove(source));
            out_rank
        },
        _ => rank,
    }
}

/// `translation_is_sound` for `for`.
proof fn for_is_sound(
    ast: Ast,
    ctx: GraphContext,
    st: Built,
    al: Layout,
    begin: usize,
    end: usize,
    rank: spec_fn(usize) -> int,
    open: Set<usize>,
    half: Set<usize>,
    hi: int,
) -> (out_rank: spec_fn(usize) -> int)
    requires
        ast.node is For,
        ready(ast, ctx, st, al, begin, end, rank, open, half, hi),
    ensures
        done(ast, ctx, st, al, begin, end, rank, open, half, out_rank),
    decreases ast, 1nat, 0nat,
{
    let source = ctx.local_source;
    let sink = ctx.local_sink;
    match ast.node {
        AstNode::For { init, cond, upd, body } => {
            let sub_source = al.own[0];
            let sub_sink = al.own[1];
            let test = al.own[2];
            let first = al.own[3];
            let step = al.own[4];
            let lo = hi - need(ast);
            let opened = st.node(sub_source, GraphNodeType::Dummy).node(
                sub_sink,
                GraphNodeType::Dummy,
            ).node(test, GraphNodeType::Choice(cond.string)).node(
                first,
                GraphNodeType::Node(init.string),
            ).node(step, GraphNodeType::Node(upd.string)).edge(
                source,
                first,
                EdgeType::Normal,
            ).edge(first, test, EdgeType::Normal).edge(
                test,
                sub_source,
                EdgeType::Branch(true),
            ).edge(test, sink, EdgeType::Branch(false)).edge(
                sub_sink,
                step,
                EdgeType::Normal,
            ).edge(step, test, EdgeType::Normal);
            let inner = ctx.looping(sub_source, sub_sink, step, sink);
            fresh_from_start(*body, inner, opened, al.kids[0]);
            let g0 = st.graph;
            g0.sound_with_node(begin, end, rank, open, half, sub_source, GraphNodeType::Dummy, hi - 2);
            let g1 = g0.add_node(sub_source, GraphNodeType::Dummy);
            let r1 = ranked_at(rank, sub_source, hi - 2);
            let o1 = open.insert(sub_source);
            g1.sound_with_node(begin, end, r1, o1, half, sub_sink, GraphNodeType::Dummy, lo + 2);
            let g2 = g1.add_node(sub_sink, GraphNodeType::Dummy);
            let r2 = ranked_at(r1, sub_sink, lo + 2);
            let o2 = o1.insert(sub_sink);
            g2.sound_with_node(
                begin,
                end,
                r2,
                o2,
                half,
                test,
                GraphNodeType::Choice(cond.string),
                lo,
            );
            let g3 = g2.add_node(test, GraphNodeType::Choice(cond.string));
            let r3 = ranked_at(r2, test, lo);
            let o3 = o2.insert(test);
            g3.sound_with_node(
                begin,
                end,
                r3,
                o3,
                half,
                first,
                GraphNodeType::Node(init.string),
                hi - 1,
            );
            let g4 = g3.add_node(first, GraphNodeType::Node(init.string));
            let r4 = ranked_at(r3, first, hi - 1);
            let o4 = o3.insert(first);
            g4.sound_with_node(
                begin,
                end,
                r4,
                o4,
                half,
                step,
                GraphNodeType::Node(upd.string),
                lo + 1,
            );
            let g5 = g4.add_node(step, GraphNodeType::Node(upd.string));
            let r5 = ranked_at(r4, step, lo + 1);
            let o5 = o4.insert(step);
            g5.sound_with_exit(begin, end, r5, o5, half, source, first);
            let g6 = g5.add_edge(source, first, EdgeType::Normal);
            let o6 = o5.remove(source);
            g6.sound_with_exit(begin, end, r5, o6, half, first, test);
            let g7 = g6.add_edge(first, test, EdgeType::Normal);
            let o7 = o6.remove(first);
            g7.sound_with_true(begin, end, r5, o7, half, test, sub_source);
            let g8 = g7.add_edge(test, sub_source, EdgeType::Branch(true));
            let o8 = o7.remove(test);
            let h8 = half.insert(test);
            g8.sound_with_false(begin, end, r5, o8, h8, test, sink);
            let g9 = g8.add_edge(test, sink, EdgeType::Branch(false));
            assert(h8.remove(test) =~= half);
            g9.sound_with_exit(begin, end, r5, o8, half, sub_sink, step);
            let g10 = g9.add_edge(sub_sink, step, EdgeType::Normal);
            let o10 = o8.remove(sub_sink);
            g10.sound_with_exit(begin, end, r5, o10, half, step, test);
            let g11 = g10.add_edge(step, test, EdgeType::Normal);
            let o11 = o10.remove(step);
            assert(opened.graph == g11);
            assert(kept(g0, g11, rank, r5));
            let out_rank = translation_is_sound(
                *body,
                inner,
                opened,
                al.kids[0],
                begin,
                end,
                r5,
                o11,
                half,
                hi - 2,
            );
            kept_chain(g0, g11, translate(*body, inner, opened, al.kids[0]).graph, rank, r5, out_rank);
            assert(o11.remove(sub_source) =~= open.remove(source));
            out_rank
        },
        _ => rank,
    }
}

/// `translation_is_sound` for `if`.
proof fn if_is_sound(
    ast: Ast,
    ctx: GraphContext,
    st: Built,
    al: Layout,
    begin: usize,
    end: usize,
    rank: spec_fn(usize) -> int,
    open: Set<usize>,
    half: Set<usize>,
    hi: int,
) -> (out_rank: spec_fn(usize) -> int)
    requires
        ast.node is If,
        ready(ast, ctx, st, al, begin, end, rank, open, half, hi),
    ensures
        done(ast, ctx, st, al, begin, end, rank, open, half, out_rank),
    decreases ast, 1nat, 0nat,
{
    let source = ctx.local_source;
    let sink = ctx.local_sink;
    match ast.node {
        AstNode::If { cond, body, otherwise } => {
            let test = al.own[0];
            let sub_source = al.own[1];
            let sub_sink = al.own[2];
            let lo = hi - need(ast);
            let opened = st.node(test, GraphNodeType::Choice(cond.string)).node(
                sub_source,
                GraphNodeType::Dummy,
            ).node(sub_sink, GraphNodeType::Dummy).edge(source, test, EdgeType::Normal).edge(
                test,
                sub_source,
                EdgeType::Branch(true),
            ).edge(sub_sink, sink, EdgeType::Normal);
            let inner = ctx.window(sub_source, sub_sink);
            let taken = translate(*body, inner, opened, al.kids[0]);
            match otherwise {
                Some(o) => {
                    fresh_from_start(
                        *o,
                        ctx.window(al.own[3], sub_sink),
                        taken.node(al.own[3], GraphNodeType::Dummy).edge(
                            test,
                            al.own[3],
                            EdgeType::Branch(false),
                        ),
                        al.kids[1],
                    );
                },
                None => {},
            }
            fresh_from_start(*body, inner, opened, al.kids[0]);
            let g0 = st.graph;
            g0.sound_with_node(
                begin,
                end,
                rank,
                open,
                half,
                test,
                GraphNodeType::Choice(cond.string),
                hi - 1,
            );
            let g1 = g0.add_node(test, GraphNodeType::Choice(cond.string));
            let r1 = ranked_at(rank, test, hi - 1);
            let o1 = open.insert(test);
            g1.sound_with_node(begin, end, r1, o1, half, sub_source, GraphNodeType::Dummy, hi - 2);
            let g2 = g1.add_node(sub_source, GraphNodeType::Dummy);
            let r2 = ranked_at(r1, sub_source, hi - 2);
            let o2 = o1.insert(sub_source);
            g2.sound_with_node(begin, end, r2, o2, half, sub_sink, GraphNodeType::Dummy, lo);
            let g3 = g2.add_node(sub_sink, GraphNodeType::Dummy);
            let r3 = ranked_at(r2, sub_sink, lo);
            let o3 = o2.insert(sub_sink);
            g3.sound_with_exit(begin, end, r3, o3, half, source, test);
            let g4 = g3.add_edge(source, test, EdgeType::Normal);
            let o4 = o3.remove(source);
            g4.sound_with_true(begin, end, r3, o4, half, test, sub_source);
            let g5 = g4.add_edge(test, sub_source, EdgeType::Branch(true));
            let o5 = o4.remove(test);
            let h5 = half.insert(test);
            g5.sound_with_exit(begin, end, r3, o5, h5, sub_sink, sink);
            let g6 = g5.add_edge(sub_sink, sink, EdgeType::Normal);
            let o6 = o5.remove(sub_sink);
            assert(opened.graph == g6);
            assert(kept(g0, g6, rank, r3));
            let r7 = translation_is_sound(
                *body,
                inner,
                opened,
                al.kids[0],
                begin,
                end,
                r3,
                o6,
                h5,
                hi - 2,
            );
            let g7 = taken.graph;
            let o7 = o6.remove(sub_source);
            kept_chain(g0, g6, g7, rank, r3, r7);
            assert(g6.nodes.dom().contains(test) && g6.nodes.dom().contains(sub_sink));
            assert(r7(test) == hi - 1 && r7(sub_sink) == lo);
            match otherwise {
                Some(o) => {
                    let other_source = al.own[3];
                    let other_hi = hi - 3 - need(*body);
                    g7.sound_with_node(
                        begin,
                        end,
                        r7,
                        o7,
                        h5,
                        other_source,
                        GraphNodeType::Dummy,
                        other_hi,
                    );
                    let g8 = g7.add_node(other_source, GraphNodeType::Dummy);
                    let r8 = ranked_at(r7, other_source, other_hi);
                    let o8 = o7.insert(other_source);
                    g8.sound_with_false(begin, end, r8, o8, h5, test, other_source);
                    assert(h5.remove(test) =~= half);
                    let g9 = g8.add_edge(test, other_source, EdgeType::Branch(false));
                    assert(kept(g7, g9, r7, r8));
                    kept_chain(g0, g7, g9, rank, r7, r8);
                    let out_rank = translation_is_sound(
                        *o,
                        ctx.window(other_source, sub_sink),
                        taken.node(other_source, GraphNodeType::Dummy).edge(
                            test,
                            other_source,
                            EdgeType::Branch(false),
                        ),
                        al.kids[1],
                        begin,
                        end,
                        r8,
                        o8,
                        half,
                        other_hi,
                    );
                    kept_chain(g0, g9, translate(ast, ctx, st, al).graph, rank, r8, out_rank);
                    assert(o8.remove(other_source) =~= open.remove(source));
                    out_rank
                },
                None => {
                    g7.sound_with_false(begin, end, r7, o7, h5, test, sink);
                    assert(h5.remove(test) =~= half);
                    assert(o7 =~= open.remove(source));
                    r7
                },
            }
        },
        _ => rank,
    }
}

/// The statements of a block of which none of the first `n` has an error have no error
/// one by one.
proof fn none_among_has_error(ast: Ast, n: nat, j: int, can_break: bool, can_continue: bool)
    requires
        ast.node matches AstNode::Compound(v) && n <= v.len(),
        0 <= j < n,
        first_error_among(ast, n, can_break, can_continue) is None,
    ensures
        ast.node matches AstNode::Compound(v) && first_error(v[j], can_break, can_continue) is None,
    decreases n,
{
    if j < n - 1 {
        none_among_has_error(ast, (n - 1) as nat, j, can_break, can_continue);
    }
}

/// More statements need more nodes.
proof fn need_among_grows(ast: Ast, k: nat, n: nat)
    requires
        ast.node matches AstNode::Compound(v) && k <= n <= v.len(),
    ensures
        need_among(ast, k) <= need_among(ast, n),
    decreases n,
{
    if k < n {
        need_among_grows(ast, k, (n - 1) as nat);
    }
}

/// The rank that the block's scaffolding node number `k` gets when the block's source
/// ranks `hi`: each statement before it takes the room that it needs, and each
/// scaffolding node one rank.
pub open spec fn rank_in_block(ast: Ast, k: nat, hi: int) -> int {
    hi - 1 - k - need_among(ast, k)
}

/// `translation_is_sound` for the statements of a non-empty block before statement `k`.
proof fn children_are_sound(
    ast: Ast,
    k: nat,
    ctx: GraphContext,
    opened: Built,
    al: Layout,
    begin: usize,
    end: usize,
    rank: spec_fn(usize) -> int,
    open: Set<usize>,
    half: Set<usize>,
    hi: int,
) -> (out_rank: spec_fn(usize) -> int)
    requires
        ast.node matches AstNode::Compound(v) && k < v.len(),
        first_error(ast, ctx.break_target is Some, ctx.continue_target is Some) is None,
        before_child(ast, k, ctx, opened, al).fresh,
        opened.graph.sound(begin, end, rank, open, half),
        ctx.within(opened.graph),
        targets_low(ctx, opened.graph, rank, hi - need(ast), begin),
        open.contains(al.own[0]),
        open.contains(al.own[1]),
        al.own[0] != al.own[1],
        opened.graph.nodes[al.own[0]] is Dummy,
        opened.graph.nodes[al.own[1]] is Dummy,
        rank(al.own[0]) == rank_in_block(ast, 0, hi),
        rank(al.own[1]) == rank_in_block(ast, 1, hi),
    ensures
        before_child(ast, k, ctx, opened, al).graph.sound(
            begin,
            end,
            out_rank,
            open.remove(al.own[0]).remove(al.own[1]).insert(al.own[k as int]).insert(
                al.own[k as int + 1],
            ),
            half,
        ),
        kept(opened.graph, before_child(ast, k, ctx, opened, al).graph, rank, out_rank),
        before_child(ast, k, ctx, opened, al).graph.has(al.own[k as int]),
        before_child(ast, k, ctx, opened, al).graph.has(al.own[k as int + 1]),
        before_child(ast, k, ctx, opened, al).graph.nodes[al.own[k as int]] is Dummy,
        before_child(ast, k, ctx, opened, al).graph.nodes[al.own[k as int + 1]] is Dummy,
        al.own[k as int] != al.own[k as int + 1],
        !open.remove(al.own[0]).remove(al.own[1]).contains(al.own[k as int]),
        !open.remove(al.own[0]).remove(al.own[1]).contains(al.own[k as int + 1]),
        out_rank(al.own[k as int]) == rank_in_block(ast, k, hi),
        out_rank(al.own[k as int + 1]) == rank_in_block(ast, k + 1, hi),
    decreases ast, 0nat, k,
{
    let rest = open.remove(al.own[0]).remove(al.own[1]);
    if k == 0 {
        assert(rest.insert(al.own[0]).insert(al.own[1]) =~= open);
        rank
    } else {
        match ast.node {
            AstNode::Compound(v) => {
                let can_break = ctx.break_target is Some;
                let can_continue = ctx.continue_target is Some;
                let j = (k - 1) as nat;
                let before = before_child(ast, j, ctx, opened, al);
                let inner = ctx.window(al.own[j as int], al.own[k as int]);
                let after = translate(v[j as int], inner, before, al.kids[j as int]);
                fresh_from_start(v[j as int], inner, before, al.kids[j as int]);
                let r1 = children_are_sound(ast, j, ctx, opened, al, begin, end, rank, open, half, hi);
                let o1 = rest.insert(al.own[j as int]).insert(al.own[k as int]);
                none_among_has_error(ast, v.len() as nat, j as int, can_break, can_continue);
                need_among_grows(ast, k, v.len() as nat);
                let r2 = translation_is_sound(
                    v[j as int],
                    inner,
                    before,
                    al.kids[j as int],
                    begin,
                    end,
                    r1,
                    o1,
                    half,
                    rank_in_block(ast, j, hi),
                );
                let o2 = o1.remove(al.own[j as int]);
                let next = al.own[k as int + 1];
                need_among_grows(ast, k + 1, v.len() as nat);
                kept_chain(opened.graph, before.graph, after.graph, rank, r1, r2);
                assert(opened.graph.nodes.dom().contains(end));
                assert(r2(end) == rank(end));
                after.graph.sound_with_node(
                    begin,
                    end,
                    r2,
                    o2,
                    half,
                    next,
                    GraphNodeType::Dummy,
                    rank_in_block(ast, k + 1, hi),
                );
                let r3 = ranked_at(r2, next, rank_in_block(ast, k + 1, hi));
                assert(o2.insert(next) =~= rest.insert(al.own[k as int]).insert(next));
                kept_chain(opened.graph, before.graph, after.graph, rank, r1, r2);
                let grown = after.graph.add_node(next, GraphNodeType::Dummy);
                assert(kept(after.graph, grown, r2, r3));
                kept_chain(opened.graph, after.graph, grown, rank, r2, r3);
                r3
            },
            _ => rank,
        }
    }
}

/// `translation_is_sound` for a block.
proof fn block_is_sound(
    ast: Ast,
    ctx: GraphContext,
    st: Built,
    al: Layout,
    begin: usize,
    end: usize,
    rank: spec_fn(usize) -> int,
    open: Set<usize>,
    half: Set<usize>,
    hi: int,
) -> (out_rank: spec_fn(usize) -> int)
    requires
        ast.node is Compound,
        ready(ast, ctx, st, al, begin, end, rank, open, half, hi),
    ensures
        done(ast, ctx, st, al, begin, end, rank, open, half, out_rank),
    decreases ast, 1nat, 0nat,
{
    let source = ctx.local_source;
    let sink = ctx.local_sink;
    match ast.node {
        AstNode::Compound(v) => {
            let first = al.own[0];
            let second = al.own[1];
            let opened = st.node(first, GraphNodeType::Dummy).node(
                second,
                GraphNodeType::Dummy,
            ).edge(source, first, EdgeType::Normal);
            let g0 = st.graph;
            if v.len() == 0 {
                g0.sound_with_node(begin, end, rank, open, half, first, GraphNodeType::Dummy, hi - 1);
                let g1 = g0.add_node(first, GraphNodeType::Dummy);
                let r1 = ranked_at(rank, first, hi - 1);
                let o1 = open.insert(first);
                g1.sound_with_node(begin, end, r1, o1, half, second, GraphNodeType::Dummy, hi - 2);
                let g2 = g1.add_node(second, GraphNodeType::Dummy);
                let r2 = ranked_at(r1, second, hi - 2);
                let o2 = o1.insert(second);
                g2.sound_with_exit(begin, end, r2, o2, half, source, first);
                let g3 = g2.add_edge(source, first, EdgeType::Normal);
                let o3 = o2.remove(source);
                g3.sound_with_exit(begin, end, r2, o3, half, first, second);
                let g4 = g3.add_edge(first, second, EdgeType::Normal);
                let o4 = o3.remove(first);
                g4.sound_with_exit(begin, end, r2, o4, half, second, sink);
                assert(o4.remove(second) =~= open.remove(source));
                r2
            } else {
                let n = v.len() as nat;
                let last = (n - 1) as nat;
                let can_break = ctx.break_target is Some;
                let can_continue = ctx.continue_target is Some;
                let before = before_child(ast, last, ctx, opened, al);
                let inner = ctx.window(al.own[last as int], al.own[n as int]);
                let after = translate(v[last as int], inner, before, al.kids[last as int]);
                fresh_from_start(v[last as int], inner, before, al.kids[last as int]);
                fresh_from_start_of_block(ast, last, ctx, opened, al);
                assert(need_among(ast, 1) == need(v[0])) by {
                    assert(need_among(ast, 0) == 0);
                }
                g0.sound_with_node(
                    begin,
                    end,
                    rank,
                    open,
                    half,
                    first,
                    GraphNodeType::Dummy,
                    rank_in_block(ast, 0, hi),
                );
                let g1 = g0.add_node(first, GraphNodeType::Dummy);
                let r1 = ranked_at(rank, first, rank_in_block(ast, 0, hi));
                let o1 = open.insert(first);
                need_among_grows(ast, 1, n);
                g1.sound_with_node(
                    begin,
                    end,
                    r1,
                    o1,
                    half,
                    second,
                    GraphNodeType::Dummy,
                    rank_in_block(ast, 1, hi),
                );
                let g2 = g1.add_node(second, GraphNodeType::Dummy);
                let r2 = ranked_at(r1, second, rank_in_block(ast, 1, hi));
                let o2 = o1.insert(second);
                g2.sound_with_exit(begin, end, r2, o2, half, source, first);
                let g3 = g2.add_edge(source, first, EdgeType::Normal);
                let o3 = o2.remove(source);
                assert(opened.graph == g3);
                assert(kept(g0, g3, rank, r2));
                let r4 = children_are_sound(ast, last, ctx, opened, al, begin, end, r2, o3, half, hi);
                let rest = o3.remove(first).remove(second);
                let o4 = rest.insert(al.own[last as int]).insert(al.own[n as int]);
                none_among_has_error(ast, n, last as int, can_break, can_continue);
                let r5 = translation_is_sound(
                    v[last as int],
                    inner,
                    before,
                    al.kids[last as int],
                    begin,
                    end,
                    r4,
                    o4,
                    half,
                    rank_in_block(ast, last, hi),
                );
                let o5 = o4.remove(al.own[last as int]);
                kept_chain(g0, g3, before.graph, rank, r2, r4);
                kept_chain(g0, before.graph, after.graph, rank, r4, r5);
                after.graph.sound_with_exit(begin, end, r5, o5, half, al.own[n as int], sink);
                assert(o5.remove(al.own[n as int]) =~= open.remove(source));
                r5
            }
        },
        _ => rank,
    }
}

/// The graph that construction leaves of a function body without errors is tidy: one
/// `Begin` that nothing leads to, one `End`, every node with the outgoing edges that its
/// kind calls for, and no cycle that avoids the decisions.
pub proof fn raw_graph_is_tidy(ast: Ast, begin: usize, end: usize, al: Layout) -> (rank: spec_fn(
    usize,
) -> int)
    requires
        first_error(ast, false, false) is None,
        raw_graph(ast, begin, end, al).fresh,
    ensures
        raw_graph(ast, begin, end, al).graph.tidy(begin, end, rank),
{
    let ctx = GraphContext::whole(begin, end);
    let start = Built::start(GraphModel::empty()).node(begin, GraphNodeType::Begin).node(
        end,
        GraphNodeType::End,
    );
    fresh_from_start(ast, ctx, start, al);
    let hi: int = need(ast) as int + 1;
    let rank0 = ranked_at(|x: usize| 0int, begin, hi);
    let open = Set::<usize>::empty().insert(begin);
    let half = Set::<usize>::empty();
    let g = start.graph;
    assert(g.sound(begin, end, rank0, open, half)) by {
        assert(g.nodes.dom().finite());
        assert forall|n: usize| g.nodes.dom().contains(n) implies #[trigger] g.settled(
            n,
            open,
            half,
        ) by {
            assert forall|b: usize, w: EdgeType| #[trigger] g.count(n, b, w) == 0 by {}
        }
        assert(g.no_incoming(begin)) by {
            assert forall|a: usize, w: EdgeType| #[trigger] g.count(a, begin, w) == 0 by {}
        }
    }
    let rank = translation_is_sound(ast, ctx, start, al, begin, end, rank0, open, half, hi);
    let out = raw_graph(ast, begin, end, al).graph;
    assert(open.remove(begin) =~= Set::<usize>::empty());
    assert forall|n: usize| out.nodes.dom().contains(n) implies #[trigger] out.exits_ok(n) by {
        assert(out.settled(n, Set::<usize>::empty(), half));
    }
    rank
}

/// The flow graph of every function body without errors exists and is canonical: the
/// simplification of what construction leaves never gets stuck, and it ends in a graph
/// with exactly one `Begin`, which nothing leads to, exactly one `End`, which nothing
/// leaves, a true and a false branch out of every decision, and no scaffolding.
pub proof fn flow_graph_is_canonical(ast: Ast, begin: usize, end: usize, al: Layout)
    requires
        first_error(ast, false, false) is None,
        raw_graph(ast, begin, end, al).fresh,
    ensures
        raw_graph(ast, begin, end, al).graph.simplified() matches Ok(h) && h.canonical(),
{
    let rank = raw_graph_is_tidy(ast, begin, end, al);
    raw_graph(ast, begin, end, al).graph.simplifying_tidy_gives_canonical(begin, end, rank);
}

} // verus!
