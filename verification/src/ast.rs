use crate::syntax::SyntaxNode;
use std::collections::HashSet;
use std::ops::Range;
use vstd::prelude::*;

verus! {

/// The text of an expression or statement, and the functions it calls.
#[derive(Debug)]
pub struct Expr {
    pub string: String,
    pub func_call: HashSet<String>,
}

/// One statement of a function body.
#[derive(Debug)]
pub enum AstNode {
    /// Stands where a statement could not be read. A well-formed tree holds none.
    Dummy,
    /// A block: its statements in order.
    Compound(Vec<Ast>),
    /// A simple statement.
    Stat(Expr),
    /// `continue`, with its text.
    Continue(String),
    /// `break`, with its text.
    Break(String),
    /// `return`, with its text.
    Return(Expr),
    /// `if`, with an optional `else`.
    If { cond: Expr, body: Box<Ast>, otherwise: Option<Box<Ast>> },
    /// `while`: the test comes before the body.
    While { cond: Expr, body: Box<Ast> },
    /// `do ... while`: the body comes before the test.
    DoWhile { cond: Expr, body: Box<Ast> },
    /// `for`: any of the three clauses may be empty text.
    For { init: Expr, cond: Expr, upd: Expr, body: Box<Ast> },
    /// `switch`, with the labels of its cases.
    Switch { cond: Expr, cases: Vec<String>, body: Box<Ast> },
    /// `goto`, with the name of the label.
    Goto(String),
}

/// A statement together with the bytes of the source it spans and the labels put on it.
#[derive(Debug)]
pub struct Ast {
    pub node: AstNode,
    pub range: Range<usize>,
    pub label: Option<Vec<String>>,
}

impl Ast {
    /// Puts the three parts together.
    pub fn new(node: AstNode, range: Range<usize>, label: Option<Vec<String>>) -> (ast: Ast)
        ensures
            ast.node == node,
            ast.range == range,
            ast.label == label,
    {
        Ast { node, range, label }
    }
}

/// An expression as a mathematical value.
pub struct ExprView {
    pub string: Seq<char>,
    pub func_call: Set<String>,
}

impl View for Expr {
    type V = ExprView;

    open spec fn view(&self) -> ExprView {
        ExprView { string: self.string@, func_call: self.func_call@ }
    }
}

/// A statement as a mathematical value: texts are sequences of characters, and the
/// statements of a block are a sequence.
pub enum AstNodeView {
    Dummy,
    Compound(Seq<AstView>),
    Stat(ExprView),
    Continue(Seq<char>),
    Break(Seq<char>),
    Return(ExprView),
    If { cond: ExprView, body: Box<AstView>, otherwise: Option<Box<AstView>> },
    While { cond: ExprView, body: Box<AstView> },
    DoWhile { cond: ExprView, body: Box<AstView> },
    For { init: ExprView, cond: ExprView, upd: ExprView, body: Box<AstView> },
    Switch { cond: ExprView, cases: Seq<Seq<char>>, body: Box<AstView> },
    Goto(Seq<char>),
}

/// A statement with its span and labels as a mathematical value.
pub struct AstView {
    pub node: AstNodeView,
    pub range: Range<usize>,
    pub label: Option<Seq<Seq<char>>>,
}

/// The texts of a list as sequences of characters.
pub open spec fn texts(list: Seq<String>) -> Seq<Seq<char>> {
    Seq::new(list.len(), |i: int| list[i]@)
}

/// The mathematical value of a statement.
pub open spec fn ast_view(ast: Ast) -> AstView
    decreases ast,
{
    AstView {
        node: match ast.node {
            AstNode::Dummy => AstNodeView::Dummy,
            AstNode::Compound(v) => AstNodeView::Compound(
                Seq::new(
                    v.len() as nat,
                    |i: int|
                        if 0 <= i < v.len() {
                            ast_view(v[i])
                        } else {
                            arbitrary()
                        },
                ),
            ),
            AstNode::Stat(e) => AstNodeView::Stat(e@),
            AstNode::Continue(s) => AstNodeView::Continue(s@),
            AstNode::Break(s) => AstNodeView::Break(s@),
            AstNode::Return(e) => AstNodeView::Return(e@),
            AstNode::If { cond, body, otherwise } => AstNodeView::If {
                cond: cond@,
                body: Box::new(ast_view(*body)),
                otherwise: match otherwise {
                    Some(o) => Some(Box::new(ast_view(*o))),
                    None => None,
                },
            },
            AstNode::While { cond, body } => AstNodeView::While {
                cond: cond@,
                body: Box::new(ast_view(*body)),
            },
            AstNode::DoWhile { cond, body } => AstNodeView::DoWhile {
                cond: cond@,
                body: Box::new(ast_view(*body)),
            },
            AstNode::For { init, cond, upd, body } => AstNodeView::For {
                init: init@,
                cond: cond@,
                upd: upd@,
                body: Box::new(ast_view(*body)),
            },
            AstNode::Switch { cond, cases, body } => AstNodeView::Switch {
                cond: cond@,
                cases: texts(cases@),
                body: Box::new(ast_view(*body)),
            },
            AstNode::Goto(s) => AstNodeView::Goto(s@),
        },
        range: ast.range,
        label: match ast.label {
            Some(l) => Some(texts(l@)),
            None => None,
        },
    }
}

impl View for Ast {
    type V = AstView;

    open spec fn view(&self) -> AstView {
        ast_view(*self)
    }
}

/// The first node of the kind `kind` in the tree below and including `node`, a node
/// coming before its children and a child before the children after it.
pub open spec fn first_of_kind(node: SyntaxNode, kind: Seq<char>) -> Option<SyntaxNode>
    decreases node, 1nat, 0nat,
{
    if node.kind@ == kind {
        Some(node)
    } else {
        first_among(node, 0, kind)
    }
}

/// The first node of the kind `kind` in the trees of the children of `node` from child
/// `i` on.
pub open spec fn first_among(node: SyntaxNode, i: nat, kind: Seq<char>) -> Option<SyntaxNode>
    decreases node, 0nat, node.children.len() - i,
{
    if i >= node.children.len() {
        None
    } else {
        match first_of_kind(node.children[i as int], kind) {
            Some(found) => Some(found),
            None => first_among(node, i + 1, kind),
        }
    }
}

/// All the nodes of the kind `kind` in the tree below and including `node`, a node
/// coming before its children and a child before the children after it.
pub open spec fn all_of_kind(node: SyntaxNode, kind: Seq<char>) -> Seq<SyntaxNode>
    decreases node, 1nat, 0nat,
{
    (if node.kind@ == kind {
        seq![node]
    } else {
        Seq::empty()
    }) + all_among(node, node.children.len() as nat, kind)
}

/// All the nodes of the kind `kind` in the trees of the first `k` children of `node`.
pub open spec fn all_among(node: SyntaxNode, k: nat, kind: Seq<char>) -> Seq<SyntaxNode>
    decreases node, 0nat, k,
{
    if k == 0 || k > node.children.len() {
        Seq::empty()
    } else {
        all_among(node, (k - 1) as nat, kind) + all_of_kind(node.children[k - 1], kind)
    }
}

/// The first node of the kind `kind` in the tree of `node`, in the order in which a
/// cursor walks the tree.
pub fn filter_ast_first<'a>(node: &'a SyntaxNode, kind: &str) -> (r: Option<&'a SyntaxNode>)
    ensures
        match r {
            Some(found) => first_of_kind(*node, kind@) == Some(*found),
            None => first_of_kind(*node, kind@) is None,
        },
        r matches Some(found) ==> forall|len: nat|
            node.spans_within(len) ==> #[trigger] found.spans_within(len),
    decreases node,
{
    if node.is(kind) {
        return Some(node);
    }
    let mut i: usize = 0;
    while i < node.children.len()
        invariant
            i <= node.children.len(),
            node.kind@ != kind@,
            first_of_kind(*node, kind@) == first_among(*node, i as nat, kind@),
        decreases node.children.len() - i,
    {
        match filter_ast_first(&node.children[i], kind) {
            Some(found) => {
                return Some(found);
            },
            None => {},
        }
        i += 1;
    }
    None
}

/// The nodes that a list of references refers to.
pub open spec fn referred(list: Seq<&SyntaxNode>) -> Seq<SyntaxNode> {
    Seq::new(list.len(), |i: int| *list[i])
}

/// All the nodes of the kind `kind` in the tree of `node`, appended to `buffer`.
fn filter_ast_impl<'a>(node: &'a SyntaxNode, kind: &str, buffer: &mut Vec<&'a SyntaxNode>)
    ensures
        referred(final(buffer)@) == referred(old(buffer)@) + all_of_kind(*node, kind@),
    decreases node,
{
    if node.is(kind) {
        buffer.push(node);
    }
    let ghost start = referred(buffer@);
    assert(start =~= referred(old(buffer)@) + (if node.kind@ == kind@ {
        seq![*node]
    } else {
        Seq::empty()
    }));
    let mut i: usize = 0;
    while i < node.children.len()
        invariant
            i <= node.children.len(),
            referred(buffer@) == start + all_among(*node, i as nat, kind@),
        decreases node.children.len() - i,
    {
        let ghost before = referred(buffer@);
        filter_ast_impl(&node.children[i], kind, buffer);
        assert(referred(buffer@) =~= start + all_among(*node, (i + 1) as nat, kind@));
        i += 1;
    }
    assert(referred(buffer@) =~= referred(old(buffer)@) + all_of_kind(*node, kind@));
}

/// All the nodes of the kind `kind` in the tree of `node`, in the order in which a
/// cursor walks the tree.
pub fn filter_ast<'a>(node: &'a SyntaxNode, kind: &str) -> (r: Vec<&'a SyntaxNode>)
    ensures
        referred(r@) == all_of_kind(*node, kind@),
{
    let mut buffer = Vec::new();
    filter_ast_impl(node, kind, &mut buffer);
    assert(referred(buffer@) =~= all_of_kind(*node, kind@));
    buffer
}

} // verus!
