use crate::ast::Ast;
use crate::ast::AstNode;
use crate::ast::Expr;
use crate::error::Error;
use crate::graph::EdgeType;
use crate::graph::Graph;
use crate::graph::GraphNodeType;
use crate::model::GraphModel;
use crate::simplify::simplify;
use crate::soundness::flow_graph_is_canonical;
use std::ops::Range;
use vstd::prelude::*;

verus! {

/// What a statement is translated against: the two nodes it is spliced between, where
/// `break` and `continue` lead, if anywhere, and the two ends of the whole graph.
#[derive(Clone, Copy, Debug)]
pub struct GraphContext {
    pub break_target: Option<usize>,
    pub continue_target: Option<usize>,
    pub global_begin: usize,
    pub global_end: usize,
    pub local_source: usize,
    pub local_sink: usize,
}

impl GraphContext {
    /// The same surroundings with another splice window.
    pub open spec fn window(self, source: usize, sink: usize) -> GraphContext {
        GraphContext { local_source: source, local_sink: sink, ..self }
    }

    /// The surroundings of a loop body: another splice window, and both jumps bound.
    pub open spec fn looping(
        self,
        source: usize,
        sink: usize,
        on_continue: usize,
        on_break: usize,
    ) -> GraphContext {
        GraphContext {
            local_source: source,
            local_sink: sink,
            continue_target: Some(on_continue),
            break_target: Some(on_break),
            ..self
        }
    }

    /// The surroundings of a whole function body, spliced between the two ends of the
    /// graph, with no jump bound.
    pub open spec fn whole(begin: usize, end: usize) -> GraphContext {
        GraphContext {
            break_target: None,
            continue_target: None,
            global_begin: begin,
            global_end: end,
            local_source: begin,
            local_sink: end,
        }
    }

    /// Every node that the context names is a node of `g`.
    pub open spec fn within(self, g: GraphModel) -> bool {
        &&& g.has(self.local_source)
        &&& g.has(self.local_sink)
        &&& g.has(self.global_end)
        &&& self.break_target matches Some(b) ==> g.has(b)
        &&& self.continue_target matches Some(c) ==> g.has(c)
    }

    /// Puts the two ends of a function, `Begin` and `End`, into the graph and returns the
    /// context of the function's body.
    pub fn new(graph: &mut Graph) -> (context: GraphContext)
        requires
            old(graph)@.wf(),
        ensures
            context == GraphContext::whole(context.global_begin, context.global_end),
            Built::start(final(graph)@) == Built::start(old(graph)@).node(
                context.global_begin,
                GraphNodeType::Begin,
            ).node(context.global_end, GraphNodeType::End),
            final(graph)@.wf(),
    {
        let begin = graph.add_node(GraphNodeType::Begin);
        let end = graph.add_node(GraphNodeType::End);
        GraphContext {
            break_target: None,
            continue_target: None,
            global_begin: begin,
            global_end: end,
            local_source: begin,
            local_sink: end,
        }
    }
}

/// The indices that a translation was handed for its new nodes: `own` for the nodes of
/// the statement itself, in the order in which it asks for them, and one entry of `kids`
/// for each statement directly inside it.
pub struct Layout {
    pub own: Seq<usize>,
    pub kids: Seq<Layout>,
}

/// A graph under construction, and whether every index handed out so far was unused at
/// the moment it was handed out.
pub struct Built {
    pub graph: GraphModel,
    pub fresh: bool,
}

impl Built {
    /// Construction starts from `g` with nothing handed out yet.
    pub open spec fn start(g: GraphModel) -> Built {
        Built { graph: g, fresh: true }
    }

    /// One more node, under the index `id`.
    pub open spec fn node(self, id: usize, kind: GraphNodeType) -> Built {
        Built { graph: self.graph.add_node(id, kind), fresh: self.fresh && !self.graph.has(id) }
    }

    /// One more edge.
    pub open spec fn edge(self, a: usize, b: usize, w: EdgeType) -> Built {
        Built { graph: self.graph.add_edge(a, b, w), fresh: self.fresh }
    }
}

/// The first reason, in source order, why `ast` has no translation, or `None` if it has
/// one. `can_break` and `can_continue` say whether the statement stands inside a loop.
pub open spec fn first_error(ast: Ast, can_break: bool, can_continue: bool) -> Option<Error>
    decreases ast, 1nat, 0nat,
{
    match ast.node {
        AstNode::Dummy => Some(Error::UnexpectedDummyAstNode { range: ast.range }),
        AstNode::Compound(v) => first_error_among(ast, v.len() as nat, can_break, can_continue),
        AstNode::Stat(_) => None,
        AstNode::Continue(_) => if can_continue {
            None
        } else {
            Some(Error::UnexpectedContinue { range: ast.range })
        },
        AstNode::Break(_) => if can_break {
            None
        } else {
            Some(Error::UnexpectedBreak { range: ast.range })
        },
        AstNode::Return(_) => None,
        AstNode::If { cond, body, otherwise } => match first_error(*body, can_break, can_continue) {
            Some(e) => Some(e),
            None => match otherwise {
                Some(o) => first_error(*o, can_break, can_continue),
                None => None,
            },
        },
        AstNode::While { cond, body } => first_error(*body, true, true),
        AstNode::DoWhile { cond, body } => first_error(*body, true, true),
        AstNode::For { init, cond, upd, body } => first_error(*body, true, true),
        AstNode::Switch { cond, cases, body } => Some(
            Error::UnsupportedConstruct { range: ast.range },
        ),
        AstNode::Goto(_) => Some(Error::UnsupportedConstruct { range: ast.range }),
    }
}

/// The first reason why one of the first `k` statements of the block `ast` has no
/// translation.
pub open spec fn first_error_among(ast: Ast, k: nat, can_break: bool, can_continue: bool) -> Option<
    Error,
>
    decreases ast, 0nat, k,
{
    if k == 0 {
        None
    } else {
        match ast.node {
            AstNode::Compound(v) => if k <= v.len() {
                match first_error_among(ast, (k - 1) as nat, can_break, can_continue) {
                    Some(e) => Some(e),
                    None => first_error(v[k - 1], can_break, can_continue),
                }
            } else {
                None
            },
            _ => None,
        }
    }
}

/// What translating `ast` against `ctx` makes of the construction `st`, when the new
/// nodes get the indices of `al`.
///
/// Every statement puts its nodes and edges between `ctx.local_source` and
/// `ctx.local_sink`; `return`, `break` and `continue` leave for `ctx.global_end` and the
/// two jump targets instead of the sink.
pub open spec fn translate(ast: Ast, ctx: GraphContext, st: Built, al: Layout) -> Built
    decreases ast, 1nat, 0nat,
{
    let source = ctx.local_source;
    let sink = ctx.local_sink;
    match ast.node {
        AstNode::Dummy => st,
        AstNode::Compound(v) => {
            let first = al.own[0];
            let opened = st.node(first, GraphNodeType::Dummy).node(
                al.own[1],
                GraphNodeType::Dummy,
            ).edge(source, first, EdgeType::Normal);
            if v.len() == 0 {
                opened.edge(first, al.own[1], EdgeType::Normal).edge(
                    al.own[1],
                    sink,
                    EdgeType::Normal,
                )
            } else {
                let n = v.len() as int;
                translate(
                    v[n - 1],
                    ctx.window(al.own[n - 1], al.own[n]),
                    before_child(ast, (n - 1) as nat, ctx, opened, al),
                    al.kids[n - 1],
                ).edge(al.own[n], sink, EdgeType::Normal)
            }
        },
        AstNode::Stat(e) => {
            let current = al.own[0];
            st.node(current, GraphNodeType::Node(e.string)).edge(
                source,
                current,
                EdgeType::Normal,
            ).edge(current, sink, EdgeType::Normal)
        },
        AstNode::Continue(s) => {
            let current = al.own[0];
            st.node(current, GraphNodeType::Node(s)).edge(source, current, EdgeType::Normal).edge(
                current,
                ctx.continue_target.unwrap(),
                EdgeType::Normal,
            )
        },
        AstNode::Break(s) => {
            let current = al.own[0];
            st.node(current, GraphNodeType::Node(s)).edge(source, current, EdgeType::Normal).edge(
                current,
                ctx.break_target.unwrap(),
                EdgeType::Normal,
            )
        },
        AstNode::Return(e) => {
            let current = al.own[0];
            st.node(current, GraphNodeType::Node(e.string)).edge(
                source,
                current,
                EdgeType::Normal,
            ).edge(current, ctx.global_end, EdgeType::Normal)
        },
        AstNode::If { cond, body, otherwise } => {
            let test = al.own[0];
            let sub_source = al.own[1];
            let sub_sink = al.own[2];
            let opened = st.node(test, GraphNodeType::Choice(cond.string)).node(
                sub_source,
                GraphNodeType::Dummy,
            ).node(sub_sink, GraphNodeType::Dummy).edge(source, test, EdgeType::Normal).edge(
                test,
                sub_source,
                EdgeType::Branch(true),
            ).edge(sub_sink, sink, EdgeType::Normal);
            let taken = translate(*body, ctx.window(sub_source, sub_sink), opened, al.kids[0]);
            match otherwise {
                Some(o) => {
                    let other_source = al.own[3];
                    translate(
                        *o,
                        ctx.window(other_source, sub_sink),
                        taken.node(other_source, GraphNodeType::Dummy).edge(
                            test,
                            other_source,
                            EdgeType::Branch(false),
                        ),
                        al.kids[1],
                    )
                },
                None => taken.edge(test, sink, EdgeType::Branch(false)),
            }
        },
        AstNode::While { cond, body } => {
            let test = al.own[0];
            let sub_source = al.own[1];
            let sub_sink = al.own[2];
            let opened = st.node(test, GraphNodeType::Choice(cond.string)).node(
                sub_source,
                GraphNodeType::Dummy,
            ).node(sub_sink, GraphNodeType::Dummy).edge(source, test, EdgeType::Normal).edge(
                test,
                sub_source,
                EdgeType::Branch(true),
            ).edge(test, sink, EdgeType::Branch(false)).edge(sub_sink, test, EdgeType::Normal);
            translate(*body, ctx.looping(sub_source, sub_sink, test, sink), opened, al.kids[0])
        },
        AstNode::DoWhile { cond, body } => {
            let sub_source = al.own[0];
            let sub_sink = al.own[1];
            let test = al.own[2];
            let opened = st.node(sub_source, GraphNodeType::Dummy).node(
                sub_sink,
                GraphNodeType::Dummy,
            ).node(test, GraphNodeType::Choice(cond.string)).edge(
                source,
                sub_source,
                EdgeType::Normal,
            ).edge(sub_sink, test, EdgeType::Normal).edge(
                test,
                sub_source,
                EdgeType::Branch(true),
            ).edge(test, sink, EdgeType::Branch(false));
            translate(*body, ctx.looping(sub_source, sub_sink, test, sink), opened, al.kids[0])
        },
        AstNode::For { init, cond, upd, body } => {
            let sub_source = al.own[0];
            let sub_sink = al.own[1];
            let test = al.own[2];
            let first = al.own[3];
            let step = al.own[4];
            let opened = st.node(sub_source, GraphNodeType::Dummy).node(
                sub_sink,
                GraphNodeType::Dummy,
            ).node(test, GraphNodeType::Choice(cond.string)).node(
                first,
                GraphNodeType::Node(init.string),
            ).node(step, GraphNodeType::Node(upd.string)).edge(
                source,
                first,
                EdgeType::Normal,
            ).edge(first, test, EdgeType::Normal).edge(
                test,
                sub_source,
                EdgeType::Branch(true),
            ).edge(test, sink, EdgeType::Branch(false)).edge(
                sub_sink,
                step,
                EdgeType::Normal,
            ).edge(step, test, EdgeType::Normal);
            translate(*body, ctx.looping(sub_source, sub_sink, step, sink), opened, al.kids[0])
        },
        AstNode::Switch { cond, cases, body } => st,
        AstNode::Goto(_) => st,
    }
}

/// The construction of the non-empty block `ast` at the moment its statement number
/// `k` is about to be translated: the statements before it are in place, and each of them
/// is followed by a fresh scaffolding node, which is the sink of the next one.
pub open spec fn before_child(ast: Ast, k: nat, ctx: GraphContext, opened: Built, al: Layout) -> Built
    decreases ast, 0nat, k,
{
    if k == 0 {
        opened
    } else {
        match ast.node {
            AstNode::Compound(v) => if k < v.len() {
                translate(
                    v[k - 1],
                    ctx.window(al.own[k - 1], al.own[k as int]),
                    before_child(ast, (k - 1) as nat, ctx, opened, al),
                    al.kids[k - 1],
                ).node(al.own[k as int + 1], GraphNodeType::Dummy)
            } else {
                opened
            },
            _ => opened,
        }
    }
}

impl GraphModel {
    /// Every node of `old` is still a node.
    pub open spec fn extends(self, old: GraphModel) -> bool {
        forall|id: usize| old.nodes.dom().contains(id) ==> #[trigger] self.nodes.dom().contains(id)
    }
}

/// A block's construction up to statement `k` depends on the layout only as far as that
/// statement: the first `k + 2` indices of its own and the layouts of the first `k`
/// statements.
proof fn before_child_agrees(ast: Ast, k: nat, ctx: GraphContext, opened: Built, a: Layout, b: Layout)
    requires
        a.own.len() >= k + 2,
        b.own.len() >= k + 2,
        a.kids.len() >= k,
        b.kids.len() >= k,
        forall|j: int| 0 <= j < k + 2 ==> a.own[j] == b.own[j],
        forall|j: int| 0 <= j < k ==> a.kids[j] == b.kids[j],
    ensures
        before_child(ast, k, ctx, opened, a) == before_child(ast, k, ctx, opened, b),
    decreases k,
{
    if k > 0 {
        before_child_agrees(ast, (k - 1) as nat, ctx, opened, a, b);
    }
}

/// Once one of the first `k` statements of a block has no translation, looking at more
/// of them changes nothing.
proof fn first_error_stays(ast: Ast, k: nat, m: nat, can_break: bool, can_continue: bool)
    requires
        ast.node matches AstNode::Compound(v) && k <= m <= v.len(),
        first_error_among(ast, k, can_break, can_continue) is Some,
    ensures
        first_error_among(ast, m, can_break, can_continue) == first_error_among(
            ast,
            k,
            can_break,
            can_continue,
        ),
    decreases m,
{
    if m > k {
        first_error_stays(ast, k, (m - 1) as nat, can_break, can_continue);
    }
}

/// What `build_graph` owes for the statement `ast`: `after` is `before` with the
/// statement's translation added, under indices that were unused when they were given, or
/// `r` is the first error of the statement.
pub open spec fn translated(
    ast: Ast,
    context: GraphContext,
    before: GraphModel,
    after: GraphModel,
    r: Result<Ghost<Layout>, Error>,
) -> bool {
    match r {
        Ok(al) => {
            &&& first_error(ast, context.break_target is Some, context.continue_target is Some)
                is None
            &&& translate(ast, context, Built::start(before), al@) == Built::start(after)
            &&& after.wf()
            &&& after.extends(before)
        },
        Err(e) => first_error(ast, context.break_target is Some, context.continue_target is Some)
            == Some(e),
    }
}

/// The context of a statement directly inside the one that `context` belongs to.
fn inner_context(
    context: GraphContext,
    source: usize,
    sink: usize,
    break_target: Option<usize>,
    continue_target: Option<usize>,
) -> (inner: GraphContext)
    ensures
        inner == (GraphContext {
            break_target,
            continue_target,
            local_source: source,
            local_sink: sink,
            ..context
        }),
{
    GraphContext {
        break_target,
        continue_target,
        global_begin: context.global_begin,
        global_end: context.global_end,
        local_source: source,
        local_sink: sink,
    }
}

/// The span of `ast` in the source, for an error to carry.
fn span_of(ast: &Ast) -> (range: Range<usize>)
    ensures
        range == ast.range,
{
    Range { start: ast.range.start, end: ast.range.end }
}

/// Translates the statement `ast` into nodes and edges of `graph`, between
/// `context.local_source` and `context.local_sink`.
///
/// On success the graph is the old one with the statement's translation added, as
/// `translate` describes it for the indices that the new nodes were given, and each of
/// those indices was unused when it was given. It fails exactly if `first_error` names an
/// error, and with that error; what the graph holds then is not stated.
pub fn build_graph(ast: &Ast, graph: &mut Graph, context: GraphContext) -> (r: Result<
    Ghost<Layout>,
    Error,
>)
    requires
        old(graph)@.wf(),
        context.within(old(graph)@),
    ensures
        translated(*ast, context, old(graph)@, final(graph)@, r),
    decreases ast, 1nat,
{
    let source = context.local_source;
    let sink = context.local_sink;
    match &ast.node {
        AstNode::Dummy => Err(Error::UnexpectedDummyAstNode { range: span_of(ast) }),
        AstNode::Compound(v) => build_compound(ast, v, graph, context),
        AstNode::Stat(e) => {
            let current = graph.add_node(GraphNodeType::Node(e.string.clone()));
            graph.add_edge(source, current, EdgeType::Normal);
            graph.add_edge(current, sink, EdgeType::Normal);
            Ok(Ghost(Layout { own: seq![current], kids: Seq::empty() }))
        },
        AstNode::Continue(s) => {
            let current = graph.add_node(GraphNodeType::Node(s.clone()));
            graph.add_edge(source, current, EdgeType::Normal);
            match context.continue_target {
                Some(target) => {
                    graph.add_edge(current, target, EdgeType::Normal);
                    Ok(Ghost(Layout { own: seq![current], kids: Seq::empty() }))
                },
                None => Err(Error::UnexpectedContinue { range: span_of(ast) }),
            }
        },
        AstNode::Break(s) => {
            let current = graph.add_node(GraphNodeType::Node(s.clone()));
            graph.add_edge(source, current, EdgeType::Normal);
            match context.break_target {
                Some(target) => {
                    graph.add_edge(current, target, EdgeType::Normal);
                    Ok(Ghost(Layout { own: seq![current], kids: Seq::empty() }))
                },
                None => Err(Error::UnexpectedBreak { range: span_of(ast) }),
            }
        },
        AstNode::Return(e) => {
            let current = graph.add_node(GraphNodeType::Node(e.string.clone()));
            graph.add_edge(source, current, EdgeType::Normal);
            graph.add_edge(current, context.global_end, EdgeType::Normal);
            Ok(Ghost(Layout { own: seq![current], kids: Seq::empty() }))
        },
        AstNode::If { cond, body, otherwise } => build_if(
            ast,
            cond,
            body,
            otherwise,
            graph,
            context,
        ),
        AstNode::While { cond, body } => build_while(ast, cond, body, graph, context),
        AstNode::DoWhile { cond, body } => build_do_while(ast, cond, body, graph, context),
        AstNode::For { init, cond, upd, body } => build_for(
            ast,
            init,
            cond,
            upd,
            body,
            graph,
            context,
        ),
        AstNode::Switch { .. } => Err(Error::UnsupportedConstruct { range: span_of(ast) }),
        AstNode::Goto(_) => Err(Error::UnsupportedConstruct { range: span_of(ast) }),
    }
}

/// `build_graph` for the block `ast` of the statements `v`: the statements in a chain,
/// each between the sink of the one before it and a scaffolding node of its own.
fn build_compound(ast: &Ast, v: &Vec<Ast>, graph: &mut Graph, context: GraphContext) -> (r: Result<
    Ghost<Layout>,
    Error,
>)
    requires
        ast.node == AstNode::Compound(*v),
        old(graph)@.wf(),
        context.within(old(graph)@),
    ensures
        translated(*ast, context, old(graph)@, final(graph)@, r),
    decreases ast, 0nat,
{
    let source = context.local_source;
    let sink = context.local_sink;
    let ghost can_break = context.break_target is Some;
    let ghost can_continue = context.continue_target is Some;
    let mut sub_source = graph.add_node(GraphNodeType::Dummy);
    let mut sub_sink = graph.add_node(GraphNodeType::Dummy);
    graph.add_edge(source, sub_source, EdgeType::Normal);
    let ghost opened = Built::start(graph@);
    let ghost mut own = seq![sub_source, sub_sink];
    let ghost mut kids = Seq::<Layout>::empty();
    let n = v.len();
    if n == 0 {
        graph.add_edge(sub_source, sub_sink, EdgeType::Normal);
        graph.add_edge(sub_sink, sink, EdgeType::Normal);
        assert(first_error_among(*ast, 0, can_break, can_continue) is None);
        return Ok(Ghost(Layout { own, kids }));
    }
    let mut i: usize = 0;
    while i + 1 < n
        invariant
            n == v.len(),
            ast.node == AstNode::Compound(*v),
            i < n,
            own.len() == i + 2,
            kids.len() == i,
            own[i as int] == sub_source,
            own[i + 1] == sub_sink,
            opened == Built::start(old(graph)@).node(own[0], GraphNodeType::Dummy).node(
                own[1],
                GraphNodeType::Dummy,
            ).edge(source, own[0], EdgeType::Normal),
            Built::start(graph@) == before_child(
                *ast,
                i as nat,
                context,
                opened,
                Layout { own, kids },
            ),
            first_error_among(*ast, i as nat, can_break, can_continue) is None,
            graph@.wf(),
            graph@.extends(old(graph)@),
            context.within(graph@),
            graph@.has(sub_source),
            graph@.has(sub_sink),
            source == context.local_source,
            sink == context.local_sink,
            can_break == context.break_target is Some,
            can_continue == context.continue_target is Some,
        decreases n - i,
    {
        let inner = inner_context(
            context,
            sub_source,
            sub_sink,
            context.break_target,
            context.continue_target,
        );
        let ghost before = Layout { own, kids };
        match build_graph(&v[i], graph, inner) {
            Ok(al) => {
                sub_source = sub_sink;
                sub_sink = graph.add_node(GraphNodeType::Dummy);
                proof {
                    own = own.push(sub_sink);
                    kids = kids.push(al@);
                    before_child_agrees(*ast, i as nat, context, opened, before, Layout { own, kids });
                }
            },
            Err(e) => {
                proof {
                    first_error_stays(*ast, (i + 1) as nat, n as nat, can_break, can_continue);
                }
                return Err(e);
            },
        }
        i += 1;
    }
    let inner = inner_context(
        context,
        sub_source,
        sub_sink,
        context.break_target,
        context.continue_target,
    );
    let ghost before = Layout { own, kids };
    match build_graph(&v[i], graph, inner) {
        Ok(al) => {
            graph.add_edge(sub_sink, sink, EdgeType::Normal);
            proof {
                kids = kids.push(al@);
                before_child_agrees(*ast, i as nat, context, opened, before, Layout { own, kids });
                assert(first_error_among(*ast, n as nat, can_break, can_continue) is None);
            }
            Ok(Ghost(Layout { own, kids }))
        },
        Err(e) => Err(e),
    }
}

/// `build_graph` for the `if` that `ast` is: a decision whose two branches meet again in
/// one scaffolding node before the sink.
fn build_if(
    ast: &Ast,
    cond: &Expr,
    body: &Ast,
    otherwise: &Option<Box<Ast>>,
    graph: &mut Graph,
    context: GraphContext,
) -> (r: Result<Ghost<Layout>, Error>)
    requires
        ast.node == (AstNode::If { cond: *cond, body: Box::new(*body), otherwise: *otherwise }),
        decreases_to!(ast => body),
        otherwise matches Some(o) ==> decreases_to!(ast => o),
        old(graph)@.wf(),
        context.within(old(graph)@),
    ensures
        translated(*ast, context, old(graph)@, final(graph)@, r),
    decreases ast, 0nat,
{
    let source = context.local_source;
    let sink = context.local_sink;
    let test = graph.add_node(GraphNodeType::Choice(cond.string.clone()));
    let sub_source = graph.add_node(GraphNodeType::Dummy);
    let sub_sink = graph.add_node(GraphNodeType::Dummy);
    graph.add_edge(source, test, EdgeType::Normal);
    graph.add_edge(test, sub_source, EdgeType::Branch(true));
    graph.add_edge(sub_sink, sink, EdgeType::Normal);
    let inner = inner_context(
        context,
        sub_source,
        sub_sink,
        context.break_target,
        context.continue_target,
    );
    let taken = match build_graph(body, graph, inner) {
        Ok(al) => al,
        Err(e) => {
            return Err(e);
        },
    };
    match otherwise {
        Some(o) => {
            let other_source = graph.add_node(GraphNodeType::Dummy);
            graph.add_edge(test, other_source, EdgeType::Branch(false));
            let inner = inner_context(
                context,
                other_source,
                sub_sink,
                context.break_target,
                context.continue_target,
            );
            match build_graph(o, graph, inner) {
                Ok(other) => Ok(
                    Ghost(
                        Layout {
                            own: seq![test, sub_source, sub_sink, other_source],
                            kids: seq![taken@, other@],
                        },
                    ),
                ),
                Err(e) => Err(e),
            }
        },
        None => {
            graph.add_edge(test, sink, EdgeType::Branch(false));
            Ok(Ghost(Layout { own: seq![test, sub_source, sub_sink], kids: seq![taken@] }))
        },
    }
}

/// `build_graph` for the `while` that `ast` is: a decision with the body on its true
/// branch and the sink on its false branch. Inside the body `break` leads to the sink and
/// `continue` to the decision.
fn build_while(ast: &Ast, cond: &Expr, body: &Ast, graph: &mut Graph, context: GraphContext) -> (r:
    Result<Ghost<Layout>, Error>)
    requires
        ast.node == (AstNode::While { cond: *cond, body: Box::new(*body) }),
        decreases_to!(ast => body),
        old(graph)@.wf(),
        context.within(old(graph)@),
    ensures
        translated(*ast, context, old(graph)@, final(graph)@, r),
    decreases ast, 0nat,
{
    let source = context.local_source;
    let sink = context.local_sink;
    let test = graph.add_node(GraphNodeType::Choice(cond.string.clone()));
    let sub_source = graph.add_node(GraphNodeType::Dummy);
    let sub_sink = graph.add_node(GraphNodeType::Dummy);
    graph.add_edge(source, test, EdgeType::Normal);
    graph.add_edge(test, sub_source, EdgeType::Branch(true));
    graph.add_edge(test, sink, EdgeType::Branch(false));
    graph.add_edge(sub_sink, test, EdgeType::Normal);
    let inner = inner_context(context, sub_source, sub_sink, Some(sink), Some(test));
    match build_graph(body, graph, inner) {
        Ok(al) => Ok(Ghost(Layout { own: seq![test, sub_source, sub_sink], kids: seq![al@] })),
        Err(e) => Err(e),
    }
}

/// `build_graph` for the `do ... while` that `ast` is: the body first, then a decision
/// with the start of the body on its true branch and the sink on its false branch. Inside
/// the body `break` leads to the sink and `continue` to the decision.
fn build_do_while(ast: &Ast, cond: &Expr, body: &Ast, graph: &mut Graph, context: GraphContext) -> (r:
    Result<Ghost<Layout>, Error>)
    requires
        ast.node == (AstNode::DoWhile { cond: *cond, body: Box::new(*body) }),
        decreases_to!(ast => body),
        old(graph)@.wf(),
        context.within(old(graph)@),
    ensures
        translated(*ast, context, old(graph)@, final(graph)@, r),
    decreases ast, 0nat,
{
    let source = context.local_source;
    let sink = context.local_sink;
    let sub_source = graph.add_node(GraphNodeType::Dummy);
    let sub_sink = graph.add_node(GraphNodeType::Dummy);
    let test = graph.add_node(GraphNodeType::Choice(cond.string.clone()));
    graph.add_edge(source, sub_source, EdgeType::Normal);
    graph.add_edge(sub_sink, test, EdgeType::Normal);
    graph.add_edge(test, sub_source, EdgeType::Branch(true));
    graph.add_edge(test, sink, EdgeType::Branch(false));
    let inner = inner_context(context, sub_source, sub_sink, Some(sink), Some(test));
    match build_graph(body, graph, inner) {
        Ok(al) => Ok(Ghost(Layout { own: seq![sub_source, sub_sink, test], kids: seq![al@] })),
        Err(e) => Err(e),
    }
}

/// `build_graph` for the `for` that `ast` is: the initialisation, then a decision with
/// the body on its true branch and the sink on its false branch, and the update step
/// between the body and the decision. Inside the body `break` leads to the sink and
/// `continue` to the update step.
fn build_for(
    ast: &Ast,
    init: &Expr,
    cond: &Expr,
    upd: &Expr,
    body: &Ast,
    graph: &mut Graph,
    context: GraphContext,
) -> (r: Result<Ghost<Layout>, Error>)
    requires
        ast.node == (AstNode::For { init: *init, cond: *cond, upd: *upd, body: Box::new(*body) }),
        decreases_to!(ast => body),
        old(graph)@.wf(),
        context.within(old(graph)@),
    ensures
        translated(*ast, context, old(graph)@, final(graph)@, r),
    decreases ast, 0nat,
{
    let source = context.local_source;
    let sink = context.local_sink;
    let sub_source = graph.add_node(GraphNodeType::Dummy);
    let sub_sink = graph.add_node(GraphNodeType::Dummy);
    let test = graph.add_node(GraphNodeType::Choice(cond.string.clone()));
    let first = graph.add_node(GraphNodeType::Node(init.string.clone()));
    let step = graph.add_node(GraphNodeType::Node(upd.string.clone()));
    graph.add_edge(source, first, EdgeType::Normal);
    graph.add_edge(first, test, EdgeType::Normal);
    graph.add_edge(test, sub_source, EdgeType::Branch(true));
    graph.add_edge(test, sink, EdgeType::Branch(false));
    graph.add_edge(sub_sink, step, EdgeType::Normal);
    graph.add_edge(step, test, EdgeType::Normal);
    let inner = inner_context(context, sub_source, sub_sink, Some(sink), Some(step));
    match build_graph(body, graph, inner) {
        Ok(al) => Ok(
            Ghost(Layout { own: seq![sub_source, sub_sink, test, first, step], kids: seq![al@] }),
        ),
        Err(e) => Err(e),
    }
}

/// The graph of the function body `ast` as construction leaves it, scaffolding included,
/// when the two ends get the indices `begin` and `end` and the other nodes those of `al`.
pub open spec fn raw_graph(ast: Ast, begin: usize, end: usize, al: Layout) -> Built {
    translate(
        ast,
        GraphContext::whole(begin, end),
        Built::start(GraphModel::empty()).node(begin, GraphNodeType::Begin).node(
            end,
            GraphNodeType::End,
        ),
        al,
    )
}

/// Whether `graph` is the flow graph of the function body `ast`: the simplified form of
/// what construction leaves of it, for some indices of the nodes.
pub open spec fn flow_graph_of(ast: Ast, graph: GraphModel) -> bool {
    exists|begin: usize, end: usize, al: Layout|
        {
            &&& (#[trigger] raw_graph(ast, begin, end, al)).fresh
            &&& raw_graph(ast, begin, end, al).graph.simplified() == Ok::<GraphModel, usize>(graph)
        }
}

/// The flow graph of the function body `ast`: its translation, simplified.
///
/// It fails exactly if the body has an error, and with the first one. Otherwise the graph
/// is the simplified form of what construction leaves of the body, and it is canonical.
pub fn from_ast(ast: &Ast) -> (r: Result<Graph, Error>)
    ensures
        match r {
            Ok(graph) => {
                &&& first_error(*ast, false, false) is None
                &&& flow_graph_of(*ast, graph@)
                &&& graph@.canonical()
            },
            Err(e) => first_error(*ast, false, false) == Some(e),
        },
{
    let mut graph = Graph::new();
    let context = GraphContext::new(&mut graph);
    let layout = match build_graph(ast, &mut graph, context) {
        Ok(layout) => layout,
        Err(e) => {
            return Err(e);
        },
    };
    proof {
        assert(raw_graph(*ast, context.global_begin, context.global_end, layout@) == Built::start(
            graph@,
        ));
        flow_graph_is_canonical(*ast, context.global_begin, context.global_end, layout@);
    }
    match simplify(&mut graph) {
        Ok(_) => Ok(graph),
        Err(e) => {
            // Not reached: splicing gets stuck in no graph that construction leaves.
            assert(false);
            Err(e)
        },
    }
}

} // verus!
