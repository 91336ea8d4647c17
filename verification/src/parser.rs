use crate::ast::filter_ast_first;
use crate::ast::first_of_kind;
use crate::ast::Ast;
use crate::ast::AstNode;
use crate::ast::AstNodeView;
use crate::ast::AstView;
use crate::ast::Expr;
use crate::ast::ExprView;
use crate::error::Error;
use crate::error::ErrorView;
use crate::syntax::SyntaxNode;
use crate::text::same;
use std::collections::HashSet;
use std::ops::Range;
use vstd::prelude::*;

verus! {

/// An expression of which only the text is known.
pub open spec fn plain(text: Seq<char>) -> ExprView {
    ExprView { string: text, func_call: Set::empty() }
}

/// The statement `node` with the span of the syntax node `at` and no label.
pub open spec fn leaf(node: AstNodeView, at: SyntaxNode) -> AstView {
    AstView { node, range: (Range { start: at.start_byte, end: at.end_byte }), label: None }
}

/// The child of `node` that fills the field `name`, as its position among the children.
pub open spec fn field_at(node: SyntaxNode, name: Seq<char>) -> Option<int> {
    node.field_index(name, node.children.len() as nat)
}

/// What is gathered while the cases of a `switch` are read: the statements of all the
/// cases so far, the labels of the cases since the last statement, and the labels of all
/// the cases.
pub struct Cases {
    pub stats: Seq<AstView>,
    pub pending: Seq<Seq<char>>,
    pub labels: Seq<Seq<char>>,
}

/// The statement that the syntax node `node` stands for in the source `content`.
///
/// A block stands for the statements of all its children, and a child that is no
/// statement, such as a brace or a comment, stands for a placeholder. A labelled
/// statement stands for the statement at its end, with all the labels on the way.
pub open spec fn statement(node: SyntaxNode, content: Seq<u8>) -> Result<AstView, ErrorView>
    decreases node, 2nat, 0nat,
{
    if node.kind@ == "compound_statement"@ {
        match statements_of(node, 0, node.children.len() as nat, content) {
            Ok(list) => Ok(leaf(AstNodeView::Compound(list), node)),
            Err(e) => Err(e),
        }
    } else if node.kind@ == "labeled_statement"@ {
        labeled(node, content, Seq::empty())
    } else {
        match single(node, content) {
            Err(ErrorView::GarbageToken(_)) => Ok(leaf(AstNodeView::Dummy, node)),
            other => other,
        }
    }
}

/// The statements that the children of `node` from child `from` up to but without child
/// `k` stand for, or the first failure among them.
pub open spec fn statements_of(node: SyntaxNode, from: nat, k: nat, content: Seq<u8>) -> Result<
    Seq<AstView>,
    ErrorView,
>
    decreases node, 0nat, k,
{
    if k <= from || k > node.children.len() {
        Ok(Seq::empty())
    } else {
        match statements_of(node, from, (k - 1) as nat, content) {
            Err(e) => Err(e),
            Ok(list) => match statement(node.children[k - 1], content) {
                Err(e) => Err(e),
                Ok(one) => Ok(list.push(one)),
            },
        }
    }
}

/// The statement that the labelled statement `node` stands for, when `labels` are the
/// labels met on the way to it.
pub open spec fn labeled(node: SyntaxNode, content: Seq<u8>, labels: Seq<Seq<char>>) -> Result<
    AstView,
    ErrorView,
>
    decreases node, 1nat, 0nat,
{
    match field_at(node, "label"@) {
        None => Err(ErrorView::ChildNotFound),
        Some(l) => {
            proof {
                node.field_index_is_child("label"@, node.children.len() as nat);
            }
            match node.children[l].text(content) {
                Err(e) => Err(e),
                Ok(label) => {
                    let last = node.children[node.children.len() - 1];
                    if last.kind@ == "labeled_statement"@ {
                        labeled(last, content, labels.push(label))
                    } else {
                        match statement(last, content) {
                            Err(e) => Err(e),
                            Ok(ast) => Ok(AstView { label: Some(labels.push(label)), ..ast }),
                        }
                    }
                },
            }
        },
    }
}

/// The statement that a syntax node other than a block and a labelled statement stands
/// for, or `GarbageToken` with the kind of the node where it is no statement.
pub open spec fn single(node: SyntaxNode, content: Seq<u8>) -> Result<AstView, ErrorView>
    decreases node, 1nat, 0nat,
{
    let kind = node.kind@;
    if kind == "continue_statement"@ {
        Ok(leaf(AstNodeView::Continue("continue"@), node))
    } else if kind == "break_statement"@ {
        Ok(leaf(AstNodeView::Break("break"@), node))
    } else if kind == "return_statement"@ {
        match node.text(content) {
            Ok(text) => Ok(leaf(AstNodeView::Return(plain(text)), node)),
            Err(e) => Err(e),
        }
    } else if kind == "if_statement"@ {
        if_statement(node, content)
    } else if kind == "while_statement"@ {
        loop_statement(node, content, true)
    } else if kind == "do_statement"@ {
        loop_statement(node, content, false)
    } else if kind == "for_statement"@ {
        for_statement(node, content)
    } else if kind == "switch_statement"@ {
        switch_statement(node, content)
    } else if kind == "goto_statement"@ {
        goto_statement(node, content)
    } else if kind == "expression_statement"@ || kind == "declaration"@ {
        match node.text(content) {
            Ok(text) => Ok(leaf(AstNodeView::Stat(plain(text)), node)),
            Err(e) => Err(e),
        }
    } else {
        Err(ErrorView::GarbageToken(kind))
    }
}

/// The `goto` that `node` stands for: the text of its label.
pub open spec fn goto_statement(node: SyntaxNode, content: Seq<u8>) -> Result<AstView, ErrorView> {
    match field_at(node, "label"@) {
        None => Err(ErrorView::ChildNotFound),
        Some(l) => match node.children[l].text(content) {
            Ok(text) => Ok(leaf(AstNodeView::Goto(text), node)),
            Err(e) => Err(e),
        },
    }
}

/// The statement that the alternative `node` of an `if` stands for: `node` is the
/// statement itself, or an `else` clause with the statement as its last child.
pub open spec fn alternative(node: SyntaxNode, content: Seq<u8>) -> Result<AstView, ErrorView>
    decreases node, 3nat, 0nat,
{
    if node.kind@ == "else_clause"@ {
        if node.children.len() == 0 {
            Err(ErrorView::ChildNotFound)
        } else {
            statement(node.children[node.children.len() - 1], content)
        }
    } else {
        statement(node, content)
    }
}

/// The `if` that `node` stands for: its condition, its consequence, and its alternative
/// if it has one.
pub open spec fn if_statement(node: SyntaxNode, content: Seq<u8>) -> Result<AstView, ErrorView>
    decreases node, 0nat, 0nat,
{
    match field_at(node, "condition"@) {
        None => Err(ErrorView::ChildNotFound),
        Some(c) => match node.children[c].text(content) {
            Err(e) => Err(e),
            Ok(cond) => match field_at(node, "consequence"@) {
                None => Err(ErrorView::ChildNotFound),
                Some(b) => {
                    proof {
                        node.field_index_is_child("consequence"@, node.children.len() as nat);
                        node.field_index_is_child("alternative"@, node.children.len() as nat);
                    }
                    match statement(node.children[b], content) {
                        Err(e) => Err(e),
                        Ok(body) => match field_at(node, "alternative"@) {
                            None => Ok(
                                leaf(
                                    AstNodeView::If {
                                        cond: plain(cond),
                                        body: Box::new(body),
                                        otherwise: None,
                                    },
                                    node,
                                ),
                            ),
                            Some(a) => match alternative(node.children[a], content) {
                                Err(e) => Err(e),
                                Ok(other) => Ok(
                                    leaf(
                                        AstNodeView::If {
                                            cond: plain(cond),
                                            body: Box::new(body),
                                            otherwise: Some(Box::new(other)),
                                        },
                                        node,
                                    ),
                                ),
                            },
                        },
                    }
                },
            },
        },
    }
}

/// The `while`, if `test_first`, or the `do ... while` that `node` stands for.
pub open spec fn loop_statement(node: SyntaxNode, content: Seq<u8>, test_first: bool) -> Result<
    AstView,
    ErrorView,
>
    decreases node, 0nat, 0nat,
{
    match field_at(node, "condition"@) {
        None => Err(ErrorView::ChildNotFound),
        Some(c) => match node.children[c].text(content) {
            Err(e) => Err(e),
            Ok(cond) => match field_at(node, "body"@) {
                None => Err(ErrorView::ChildNotFound),
                Some(b) => {
                    proof {
                        node.field_index_is_child("body"@, node.children.len() as nat);
                    }
                    match statement(node.children[b], content) {
                        Err(e) => Err(e),
                        Ok(body) => Ok(
                            leaf(
                                if test_first {
                                    AstNodeView::While { cond: plain(cond), body: Box::new(body) }
                                } else {
                                    AstNodeView::DoWhile { cond: plain(cond), body: Box::new(body) }
                                },
                                node,
                            ),
                        ),
                    }
                },
            },
        },
    }
}

/// The text of the child of `node` that fills the field `name`, or `default` where no
/// child fills it.
pub open spec fn clause(node: SyntaxNode, content: Seq<u8>, name: Seq<char>, default: Seq<char>) -> Result<
    Seq<char>,
    ErrorView,
> {
    match field_at(node, name) {
        None => Ok(default),
        Some(i) => node.children[i].text(content),
    }
}

/// The `for` that `node` stands for. A clause that is left out reads as no text, but a
/// condition that is left out reads `true`. The body is the last child.
pub open spec fn for_statement(node: SyntaxNode, content: Seq<u8>) -> Result<AstView, ErrorView>
    decreases node, 0nat, 0nat,
{
    match clause(node, content, "initializer"@, Seq::empty()) {
        Err(e) => Err(e),
        Ok(init) => match clause(node, content, "condition"@, "true"@) {
            Err(e) => Err(e),
            Ok(cond) => match clause(node, content, "update"@, Seq::empty()) {
                Err(e) => Err(e),
                Ok(upd) => if node.children.len() == 0 {
                    Err(ErrorView::ChildNotFound)
                } else {
                    match statement(node.children[node.children.len() - 1], content) {
                        Err(e) => Err(e),
                        Ok(body) => Ok(
                            leaf(
                                AstNodeView::For {
                                    init: plain(init),
                                    cond: plain(cond),
                                    upd: plain(upd),
                                    body: Box::new(body),
                                },
                                node,
                            ),
                        ),
                    }
                },
            },
        },
    }
}

/// The label of the case `case`: the text of its second child if the first is the word
/// `case`, and of its first child otherwise.
pub open spec fn case_label(case: SyntaxNode, content: Seq<u8>) -> Result<Seq<char>, ErrorView> {
    if case.children.len() == 0 {
        Err(ErrorView::ChildNotFound)
    } else if case.children[0].kind@ == "case"@ {
        if case.children.len() < 2 {
            Err(ErrorView::ChildNotFound)
        } else {
            case.children[1].text(content)
        }
    } else {
        case.children[0].text(content)
    }
}

/// The first child of `case` from child `j` on that is neither a colon nor a comment.
pub open spec fn past_colons(case: SyntaxNode, j: nat) -> Option<nat>
    decreases case.children.len() - j,
{
    if j >= case.children.len() {
        None
    } else if case.children[j as int].kind@ == ":"@ || case.children[j as int].kind@ == "comment"@ {
        past_colons(case, j + 1)
    } else {
        Some(j)
    }
}

/// Where the statements of the case `case`, which has a child, begin: behind the word
/// `case` and its label, or behind the word `default`, and behind the colons and comments
/// that follow. `None` where nothing follows.
pub open spec fn case_body(case: SyntaxNode) -> Option<nat> {
    let last = (case.children.len() - 1) as nat;
    if case.children[0].kind@ == "case"@ {
        past_colons(
            case,
            if last < 2 {
                last
            } else {
                2
            },
        )
    } else if case.children[0].kind@ == "default"@ {
        past_colons(
            case,
            if last < 1 {
                last
            } else {
                1
            },
        )
    } else {
        past_colons(case, 0)
    }
}

/// What one case adds to what has been gathered: its label, and its statements if it has
/// any, the first of them labelled with the labels of the cases since the last statement.
pub open spec fn with_case(case: SyntaxNode, content: Seq<u8>, so_far: Cases) -> Result<
    Cases,
    ErrorView,
>
    decreases case, 1nat, 0nat,
{
    match case_label(case, content) {
        Err(e) => Err(e),
        Ok(label) => match case_body(case) {
            None => Ok(
                Cases {
                    stats: so_far.stats,
                    pending: so_far.pending.push(label),
                    labels: so_far.labels.push(label),
                },
            ),
            Some(j) => match statements_of(case, j, case.children.len() as nat, content) {
                Err(e) => Err(e),
                Ok(list) => Ok(
                    Cases {
                        stats: so_far.stats + list.update(
                            0,
                            AstView { label: Some(so_far.pending.push(label)), ..list[0] },
                        ),
                        pending: Seq::empty(),
                        labels: so_far.labels.push(label),
                    },
                ),
            },
        },
    }
}

/// What the children of `body` from child `i` on add to what has been gathered: child
/// `i` is read as a case whatever it is, and the children after it as long as they are
/// cases.
pub open spec fn with_cases(body: SyntaxNode, i: nat, content: Seq<u8>, so_far: Cases) -> Result<
    Cases,
    ErrorView,
>
    decreases body, 2nat, body.children.len() - i,
{
    if i >= body.children.len() {
        Ok(so_far)
    } else {
        match with_case(body.children[i as int], content, so_far) {
            Err(e) => Err(e),
            Ok(more) => if i + 1 < body.children.len() && body.children[i as int + 1].kind@
                == "case_statement"@ {
                with_cases(body, i + 1, content, more)
            } else {
                Ok(more)
            },
        }
    }
}

/// The `switch` that `node` stands for: its condition, the labels of its cases, and the
/// statements of all its cases in one block, which has the span of the `switch`. The
/// cases are the children of the body from the second on, or the only child.
pub open spec fn switch_statement(node: SyntaxNode, content: Seq<u8>) -> Result<AstView, ErrorView>
    decreases node, 0nat, 0nat,
{
    match field_at(node, "condition"@) {
        None => Err(ErrorView::ChildNotFound),
        Some(c) => match field_at(node, "body"@) {
            None => Err(ErrorView::ChildNotFound),
            Some(b) => match node.children[c].text(content) {
                Err(e) => Err(e),
                Ok(cond) => {
                    proof {
                        node.field_index_is_child("body"@, node.children.len() as nat);
                    }
                    let body = node.children[b];
                    if body.children.len() == 0 {
                        Err(ErrorView::ChildNotFound)
                    } else {
                        match with_cases(
                            body,
                            if body.children.len() == 1 {
                                0
                            } else {
                                1
                            },
                            content,
                            Cases {
                                stats: Seq::empty(),
                                pending: Seq::empty(),
                                labels: Seq::empty(),
                            },
                        ) {
                            Err(e) => Err(e),
                            Ok(cases) => Ok(
                                leaf(
                                    AstNodeView::Switch {
                                        cond: plain(cond),
                                        cases: cases.labels,
                                        body: Box::new(
                                            leaf(AstNodeView::Compound(cases.stats), node),
                                        ),
                                    },
                                    node,
                                ),
                            ),
                        }
                    }
                },
            },
        },
    }
}

/// The mathematical values of a list of statements.
pub open spec fn views(list: Seq<Ast>) -> Seq<AstView> {
    Seq::new(list.len(), |i: int| list[i]@)
}

/// Whether a result is the one that the specification `expected` calls for.
pub open spec fn agrees(r: Result<Ast, Error>, expected: Result<AstView, ErrorView>) -> bool {
    match r {
        Ok(ast) => expected == Ok::<AstView, ErrorView>(ast@),
        Err(e) => expected == Err::<AstView, ErrorView>(e@),
    }
}

/// A failure among the statements of some children stays the failure when more children
/// are looked at.
proof fn failure_stays(node: SyntaxNode, from: nat, k: nat, m: nat, content: Seq<u8>)
    requires
        from < k <= m <= node.children.len(),
        statements_of(node, from, k, content) is Err,
    ensures
        statements_of(node, from, m, content) == statements_of(node, from, k, content),
    decreases m,
{
    if k < m {
        failure_stays(node, from, k, (m - 1) as nat, content);
    }
}

/// An expression of which only the text is known.
fn plain_expr(text: String) -> (e: Expr)
    ensures
        e@ == plain(text@),
{
    Expr { string: text, func_call: HashSet::new() }
}

/// A statement with the span of the syntax node `at` and no label.
fn leaf_ast(node: AstNode, at: &SyntaxNode) -> (ast: Ast)
    ensures
        ast.node == node,
        ast.range == (Range { start: at.start_byte, end: at.end_byte }),
        ast.label == None::<Vec<String>>,
{
    Ast::new(node, Range { start: at.start_byte, end: at.end_byte }, None)
}

/// The statements that the children of `node` from child `from` on stand for.
fn parse_children(node: &SyntaxNode, from: usize, content: &[u8]) -> (r: Result<Vec<Ast>, Error>)
    requires
        node.spans_within(content@.len()),
    ensures
        match r {
            Ok(list) => statements_of(*node, from as nat, node.children.len() as nat, content@)
                == Ok::<Seq<AstView>, ErrorView>(views(list@)) && (from <= node.children.len()
                ==> list@.len() == node.children.len() - from),
            Err(e) => statements_of(*node, from as nat, node.children.len() as nat, content@)
                == Err::<Seq<AstView>, ErrorView>(e@),
        },
    decreases node, 0nat,
{
    let mut list: Vec<Ast> = Vec::new();
    if from >= node.children.len() {
        assert(views(list@) =~= Seq::empty());
        return Ok(list);
    }
    let mut i: usize = from;
    assert(views(list@) =~= Seq::empty());
    while i < node.children.len()
        invariant
            from <= i <= node.children.len(),
            node.spans_within(content@.len()),
            list@.len() == i - from,
            statements_of(*node, from as nat, i as nat, content@) == Ok::<Seq<AstView>, ErrorView>(
                views(list@),
            ),
        decreases node.children.len() - i,
    {
        match parse_stat(&node.children[i], content) {
            Ok(ast) => {
                proof {
                    assert(views(list@.push(ast)) =~= views(list@).push(ast@));
                }
                list.push(ast);
            },
            Err(e) => {
                proof {
                    failure_stays(
                        *node,
                        from as nat,
                        (i + 1) as nat,
                        node.children.len() as nat,
                        content@,
                    );
                }
                return Err(e);
            },
        }
        i += 1;
    }
    Ok(list)
}

/// The statement that the syntax node `stat` stands for.
///
/// A block stands for the statements of all its children, a child that is no statement
/// for a placeholder, and a labelled statement for the statement at its end with its
/// labels. It fails where a node lacks a child that its kind must have, and where a text
/// is not valid UTF-8.
pub fn parse_stat(stat: &SyntaxNode, content: &[u8]) -> (r: Result<Ast, Error>)
    requires
        stat.spans_within(content@.len()),
    ensures
        agrees(r, statement(*stat, content@)),
    decreases stat, 2nat,
{
    if stat.is("compound_statement") {
        match parse_children(stat, 0, content) {
            Ok(list) => {
                let ast = leaf_ast(AstNode::Compound(list), stat);
                assert(ast@.node =~= AstNodeView::Compound(views(list@))) by {
                    assert(ast@.node->Compound_0 =~= views(list@));
                }
                Ok(ast)
            },
            Err(e) => Err(e),
        }
    } else if stat.is("labeled_statement") {
        let labels: Vec<String> = Vec::new();
        assert(crate::ast::texts(labels@) =~= Seq::empty());
        parse_labeled(stat, content, labels)
    } else {
        match parse_single_stat(stat, content) {
            Ok(ast) => Ok(ast),
            Err(Error::GarbageToken(_)) => Ok(leaf_ast(AstNode::Dummy, stat)),
            Err(e) => Err(e),
        }
    }
}

/// The statement that the labelled statement `node` stands for, when `labels` are the
/// labels met on the way to it.
fn parse_labeled(node: &SyntaxNode, content: &[u8], labels: Vec<String>) -> (r: Result<Ast, Error>)
    requires
        node.spans_within(content@.len()),
    ensures
        agrees(r, labeled(*node, content@, crate::ast::texts(labels@))),
    decreases node, 1nat,
{
    let mut labels = labels;
    let ghost before = crate::ast::texts(labels@);
    let label_node = match node.child_by_field_name("label") {
        Some(found) => found,
        None => {
            return Err(Error::ChildNotFound);
        },
    };
    proof {
        node.field_index_is_child("label"@, node.children.len() as nat);
    }
    let label = match label_node.utf8_text(content) {
        Ok(text) => text,
        Err(e) => {
            return Err(e);
        },
    };
    labels.push(label);
    assert(crate::ast::texts(labels@) =~= before.push(label@));
    let last = &node.children[node.children.len() - 1];
    if last.is("labeled_statement") {
        parse_labeled(last, content, labels)
    } else {
        match parse_stat(last, content) {
            Ok(ast) => {
                let mut ast = ast;
                ast.label = Some(labels);
                Ok(ast)
            },
            Err(e) => Err(e),
        }
    }
}

/// The statement that a syntax node other than a block and a labelled statement stands
/// for. A node that is no statement gives `GarbageToken` with its kind.
pub fn parse_single_stat(stat: &SyntaxNode, content: &[u8]) -> (r: Result<Ast, Error>)
    requires
        stat.spans_within(content@.len()),
    ensures
        agrees(r, single(*stat, content@)),
    decreases stat, 1nat,
{
    if stat.is("continue_statement") {
        Ok(leaf_ast(AstNode::Continue(String::from_str("continue")), stat))
    } else if stat.is("break_statement") {
        Ok(leaf_ast(AstNode::Break(String::from_str("break")), stat))
    } else if stat.is("return_statement") {
        match stat.utf8_text(content) {
            Ok(text) => Ok(leaf_ast(AstNode::Return(plain_expr(text)), stat)),
            Err(e) => Err(e),
        }
    } else if stat.is("if_statement") {
        parse_if_stat(stat, content)
    } else if stat.is("while_statement") {
        parse_while_stat(stat, content)
    } else if stat.is("do_statement") {
        parse_do_while_stat(stat, content)
    } else if stat.is("for_statement") {
        parse_for_stat(stat, content)
    } else if stat.is("switch_statement") {
        parse_switch_stat(stat, content)
    } else if stat.is("goto_statement") {
        parse_goto_stat(stat, content)
    } else if stat.is("expression_statement") || stat.is("declaration") {
        match stat.utf8_text(content) {
            Ok(text) => Ok(leaf_ast(AstNode::Stat(plain_expr(text)), stat)),
            Err(e) => Err(e),
        }
    } else {
        Err(Error::GarbageToken(stat.kind.clone()))
    }
}

/// The `if` that `if_stat` stands for.
fn parse_if_stat(if_stat: &SyntaxNode, content: &[u8]) -> (r: Result<Ast, Error>)
    requires
        if_stat.spans_within(content@.len()),
    ensures
        agrees(r, if_statement(*if_stat, content@)),
    decreases if_stat, 0nat,
{
    let condition = match if_stat.child_by_field_name("condition") {
        Some(found) => found,
        None => {
            return Err(Error::ChildNotFound);
        },
    };
    let blk1 = if_stat.child_by_field_name("consequence");
    let blk2 = if_stat.child_by_field_name("alternative");
    proof {
        if_stat.field_index_is_child("consequence"@, if_stat.children.len() as nat);
        if_stat.field_index_is_child("alternative"@, if_stat.children.len() as nat);
    }
    let cond = match condition.utf8_text(content) {
        Ok(text) => text,
        Err(e) => {
            return Err(e);
        },
    };
    let body = match blk1 {
        Some(found) => match parse_stat(found, content) {
            Ok(ast) => ast,
            Err(e) => {
                return Err(e);
            },
        },
        None => {
            return Err(Error::ChildNotFound);
        },
    };
    let otherwise = match blk2 {
        Some(found) => {
            assert(found.spans_within(content@.len()));
            let target = if found.is("else_clause") {
                if found.children.len() == 0 {
                    return Err(Error::ChildNotFound);
                }
                &found.children[found.children.len() - 1]
            } else {
                found
            };
            match parse_stat(target, content) {
                Ok(ast) => Some(Box::new(ast)),
                Err(e) => {
                    return Err(e);
                },
            }
        },
        None => None,
    };
    Ok(
        leaf_ast(
            AstNode::If { cond: plain_expr(cond), body: Box::new(body), otherwise },
            if_stat,
        ),
    )
}

/// The `while` that `while_stat` stands for.
fn parse_while_stat(while_stat: &SyntaxNode, content: &[u8]) -> (r: Result<Ast, Error>)
    requires
        while_stat.spans_within(content@.len()),
    ensures
        agrees(r, loop_statement(*while_stat, content@, true)),
    decreases while_stat, 0nat,
{
    let condition = match while_stat.child_by_field_name("condition") {
        Some(found) => found,
        None => {
            return Err(Error::ChildNotFound);
        },
    };
    let body = while_stat.child_by_field_name("body");
    proof {
        while_stat.field_index_is_child("body"@, while_stat.children.len() as nat);
    }
    let cond = match condition.utf8_text(content) {
        Ok(text) => text,
        Err(e) => {
            return Err(e);
        },
    };
    let body = match body {
        Some(found) => match parse_stat(found, content) {
            Ok(ast) => ast,
            Err(e) => {
                return Err(e);
            },
        },
        None => {
            return Err(Error::ChildNotFound);
        },
    };
    Ok(leaf_ast(AstNode::While { cond: plain_expr(cond), body: Box::new(body) }, while_stat))
}

/// The `do ... while` that `do_while_stat` stands for.
fn parse_do_while_stat(do_while_stat: &SyntaxNode, content: &[u8]) -> (r: Result<Ast, Error>)
    requires
        do_while_stat.spans_within(content@.len()),
    ensures
        agrees(r, loop_statement(*do_while_stat, content@, false)),
    decreases do_while_stat, 0nat,
{
    let condition = match do_while_stat.child_by_field_name("condition") {
        Some(found) => found,
        None => {
            return Err(Error::ChildNotFound);
        },
    };
    let body = do_while_stat.child_by_field_name("body");
    proof {
        do_while_stat.field_index_is_child("body"@, do_while_stat.children.len() as nat);
    }
    let cond = match condition.utf8_text(content) {
        Ok(text) => text,
        Err(e) => {
            return Err(e);
        },
    };
    let body = match body {
        Some(found) => match parse_stat(found, content) {
            Ok(ast) => ast,
            Err(e) => {
                return Err(e);
            },
        },
        None => {
            return Err(Error::ChildNotFound);
        },
    };
    Ok(
        leaf_ast(
            AstNode::DoWhile { cond: plain_expr(cond), body: Box::new(body) },
            do_while_stat,
        ),
    )
}

/// The `goto` that `goto_stat` stands for.
fn parse_goto_stat(goto_stat: &SyntaxNode, content: &[u8]) -> (r: Result<Ast, Error>)
    requires
        goto_stat.spans_within(content@.len()),
    ensures
        agrees(r, goto_statement(*goto_stat, content@)),
{
    let label = match goto_stat.child_by_field_name("label") {
        Some(found) => found,
        None => {
            return Err(Error::ChildNotFound);
        },
    };
    match label.utf8_text(content) {
        Ok(text) => Ok(leaf_ast(AstNode::Goto(text), goto_stat)),
        Err(e) => Err(e),
    }
}

/// The text of the child of `node` that fills the field `name`, or `default` where no
/// child fills it.
fn parse_clause(node: &SyntaxNode, content: &[u8], name: &str, default: &str) -> (r: Result<
    String,
    Error,
>)
    requires
        node.spans_within(content@.len()),
    ensures
        match r {
            Ok(text) => clause(*node, content@, name@, default@) == Ok::<Seq<char>, ErrorView>(text@),
            Err(e) => clause(*node, content@, name@, default@) == Err::<Seq<char>, ErrorView>(e@),
        },
{
    match node.child_by_field_name(name) {
        Some(found) => found.utf8_text(content),
        None => Ok(String::from_str(default)),
    }
}

/// The `for` that `for_stat` stands for.
fn parse_for_stat(for_stat: &SyntaxNode, content: &[u8]) -> (r: Result<Ast, Error>)
    requires
        for_stat.spans_within(content@.len()),
    ensures
        agrees(r, for_statement(*for_stat, content@)),
    decreases for_stat, 0nat,
{
    proof {
        reveal_strlit("");
    }
    let init = match parse_clause(for_stat, content, "initializer", "") {
        Ok(text) => text,
        Err(e) => {
            return Err(e);
        },
    };
    let cond = match parse_clause(for_stat, content, "condition", "true") {
        Ok(text) => text,
        Err(e) => {
            return Err(e);
        },
    };
    let upd = match parse_clause(for_stat, content, "update", "") {
        Ok(text) => text,
        Err(e) => {
            return Err(e);
        },
    };
    assert(""@ =~= Seq::<char>::empty());
    if for_stat.children.len() == 0 {
        return Err(Error::ChildNotFound);
    }
    let body = match parse_stat(&for_stat.children[for_stat.children.len() - 1], content) {
        Ok(ast) => ast,
        Err(e) => {
            return Err(e);
        },
    };
    Ok(
        leaf_ast(
            AstNode::For {
                init: plain_expr(init),
                cond: plain_expr(cond),
                upd: plain_expr(upd),
                body: Box::new(body),
            },
            for_stat,
        ),
    )
}

/// What is gathered while the cases of a `switch` are read.
struct Gathered {
    stats: Vec<Ast>,
    pending: Vec<String>,
    labels: Vec<String>,
}

impl View for Gathered {
    type V = Cases;

    closed spec fn view(&self) -> Cases {
        Cases {
            stats: views(self.stats@),
            pending: crate::ast::texts(self.pending@),
            labels: crate::ast::texts(self.labels@),
        }
    }
}

/// The label of the case `case_stat`.
fn parse_case_label(case_stat: &SyntaxNode, content: &[u8]) -> (r: Result<String, Error>)
    requires
        case_stat.spans_within(content@.len()),
    ensures
        match r {
            Ok(text) => case_label(*case_stat, content@) == Ok::<Seq<char>, ErrorView>(text@),
            Err(e) => case_label(*case_stat, content@) == Err::<Seq<char>, ErrorView>(e@),
        },
{
    if case_stat.children.len() == 0 {
        return Err(Error::ChildNotFound);
    }
    if case_stat.children[0].is("case") {
        if case_stat.children.len() < 2 {
            return Err(Error::ChildNotFound);
        }
        case_stat.children[1].utf8_text(content)
    } else {
        case_stat.children[0].utf8_text(content)
    }
}

/// Where the statements of the case `case_stat` begin, if it has any.
fn find_case_body(case_stat: &SyntaxNode) -> (r: Option<usize>)
    requires
        case_stat.children.len() > 0,
    ensures
        match r {
            Some(j) => case_body(*case_stat) == Some(j as nat) && j < case_stat.children.len(),
            None => case_body(*case_stat) is None,
        },
{
    let last = case_stat.children.len() - 1;
    let mut j: usize = if case_stat.children[0].is("case") {
        if last < 2 {
            last
        } else {
            2
        }
    } else if case_stat.children[0].is("default") {
        if last < 1 {
            last
        } else {
            1
        }
    } else {
        0
    };
    while case_stat.children[j].is(":") || case_stat.children[j].is("comment")
        invariant
            j < case_stat.children.len(),
            case_body(*case_stat) == past_colons(*case_stat, j as nat),
        decreases case_stat.children.len() - j,
    {
        if j + 1 >= case_stat.children.len() {
            assert(past_colons(*case_stat, (j + 1) as nat) is None);
            return None;
        }
        j += 1;
    }
    Some(j)
}

/// The label and the statements of the case `case_stat`, added to what has been
/// gathered.
fn parse_case(case_stat: &SyntaxNode, content: &[u8], so_far: Gathered) -> (r: Result<
    Gathered,
    Error,
>)
    requires
        case_stat.spans_within(content@.len()),
    ensures
        match r {
            Ok(more) => with_case(*case_stat, content@, so_far@) == Ok::<Cases, ErrorView>(more@),
            Err(e) => with_case(*case_stat, content@, so_far@) == Err::<Cases, ErrorView>(e@),
        },
    decreases case_stat, 1nat,
{
    let label = match parse_case_label(case_stat, content) {
        Ok(text) => text,
        Err(e) => {
            return Err(e);
        },
    };
    let Gathered { stats, pending, labels } = so_far;
    let mut stats = stats;
    let mut pending = pending;
    let mut labels = labels;
    let ghost old_pending = crate::ast::texts(pending@);
    let ghost old_labels = crate::ast::texts(labels@);
    let ghost old_stats = views(stats@);
    pending.push(label.clone());
    labels.push(label);
    assert(crate::ast::texts(pending@) =~= old_pending.push(label@));
    assert(crate::ast::texts(labels@) =~= old_labels.push(label@));
    match find_case_body(case_stat) {
        None => Ok(Gathered { stats, pending, labels }),
        Some(j) => {
            let mut list = match parse_children(case_stat, j, content) {
                Ok(list) => list,
                Err(e) => {
                    return Err(e);
                },
            };
            let ghost parsed = views(list@);
            let mut first = list.remove(0);
            first.label = Some(pending);
            list.insert(0, first);
            proof {
                assert(views(list@) =~= parsed.update(
                    0,
                    AstView { label: Some(old_pending.push(label@)), ..parsed[0] },
                ));
            }
            let ghost relabelled = views(list@);
            stats.append(&mut list);
            proof {
                assert(views(stats@) =~= old_stats + relabelled);
            }
            let pending: Vec<String> = Vec::new();
            assert(crate::ast::texts(pending@) =~= Seq::empty());
            Ok(Gathered { stats, pending, labels })
        },
    }
}

/// The `switch` that `switch_stat` stands for.
fn parse_switch_stat(switch_stat: &SyntaxNode, content: &[u8]) -> (r: Result<Ast, Error>)
    requires
        switch_stat.spans_within(content@.len()),
    ensures
        agrees(r, switch_statement(*switch_stat, content@)),
    decreases switch_stat, 0nat,
{
    let condition = match switch_stat.child_by_field_name("condition") {
        Some(found) => found,
        None => {
            return Err(Error::ChildNotFound);
        },
    };
    let body = match switch_stat.child_by_field_name("body") {
        Some(found) => found,
        None => {
            return Err(Error::ChildNotFound);
        },
    };
    proof {
        switch_stat.field_index_is_child("body"@, switch_stat.children.len() as nat);
    }
    let cond = match condition.utf8_text(content) {
        Ok(text) => text,
        Err(e) => {
            return Err(e);
        },
    };
    if body.children.len() == 0 {
        return Err(Error::ChildNotFound);
    }
    let start: usize = if body.children.len() == 1 {
        0
    } else {
        1
    };
    let mut gathered = Gathered { stats: Vec::new(), pending: Vec::new(), labels: Vec::new() };
    let ghost nothing = Cases { stats: Seq::empty(), pending: Seq::empty(), labels: Seq::empty() };
    assert(gathered@.stats =~= nothing.stats && gathered@.pending =~= nothing.pending
        && gathered@.labels =~= nothing.labels);
    let mut i: usize = start;
    let ghost expected = with_cases(*body, start as nat, content@, nothing);
    assert(switch_statement(*switch_stat, content@) == match expected {
        Err(e) => Err::<AstView, ErrorView>(e),
        Ok(cases) => Ok(
            leaf(
                AstNodeView::Switch {
                    cond: plain(cond@),
                    cases: cases.labels,
                    body: Box::new(leaf(AstNodeView::Compound(cases.stats), *switch_stat)),
                },
                *switch_stat,
            ),
        ),
    });
    loop
        invariant_except_break
            expected == with_cases(*body, i as nat, content@, gathered@),
        invariant
            i < body.children.len(),
            body.spans_within(content@.len()),
            decreases_to!(switch_stat => body),
            expected matches Err(e) ==> switch_statement(*switch_stat, content@) == Err::<
                AstView,
                ErrorView,
            >(e),
        ensures
            expected == Ok::<Cases, ErrorView>(gathered@),
        decreases body.children.len() - i,
    {
        let ghost before = gathered@;
        gathered = match parse_case(&body.children[i], content, gathered) {
            Ok(more) => more,
            Err(e) => {
                assert(with_cases(*body, i as nat, content@, before) == Err::<Cases, ErrorView>(e@));
                return Err(e);
            },
        };
        if !(i + 1 < body.children.len() && body.children[i + 1].is("case_statement")) {
            assert(with_cases(*body, i as nat, content@, before) == Ok::<Cases, ErrorView>(
                gathered@,
            ));
            break ;
        }
        assert(with_cases(*body, i as nat, content@, before) == with_cases(
            *body,
            (i + 1) as nat,
            content@,
            gathered@,
        ));
        i += 1;
    }
    let Gathered { stats, pending, labels } = gathered;
    let inner = leaf_ast(AstNode::Compound(stats), switch_stat);
    assert(inner@ =~= leaf(AstNodeView::Compound(views(stats@)), *switch_stat)) by {
        assert(inner@.node->Compound_0 =~= views(stats@));
    }
    Ok(
        leaf_ast(
            AstNode::Switch { cond: plain_expr(cond), cases: labels, body: Box::new(inner) },
            switch_stat,
        ),
    )
}

/// The statement `ast` without the placeholders in its blocks, at any depth.
pub open spec fn without_dummies(ast: AstView) -> AstView
    decreases ast,
{
    AstView {
        node: match ast.node {
            AstNodeView::Compound(list) => AstNodeView::Compound(cleaned(list)),
            AstNodeView::If { cond, body, otherwise } => AstNodeView::If {
                cond,
                body: Box::new(without_dummies(*body)),
                otherwise: match otherwise {
                    Some(o) => Some(Box::new(without_dummies(*o))),
                    None => None,
                },
            },
            AstNodeView::While { cond, body } => AstNodeView::While {
                cond,
                body: Box::new(without_dummies(*body)),
            },
            AstNodeView::DoWhile { cond, body } => AstNodeView::DoWhile {
                cond,
                body: Box::new(without_dummies(*body)),
            },
            AstNodeView::For { init, cond, upd, body } => AstNodeView::For {
                init,
                cond,
                upd,
                body: Box::new(without_dummies(*body)),
            },
            AstNodeView::Switch { cond, cases, body } => AstNodeView::Switch {
                cond,
                cases,
                body: Box::new(without_dummies(*body)),
            },
            other => other,
        },
        ..ast
    }
}

/// The statements of `list` that are no placeholders, each without the placeholders in
/// its blocks.
pub open spec fn cleaned(list: Seq<AstView>) -> Seq<AstView>
    decreases list,
{
    if list.len() == 0 {
        Seq::empty()
    } else if list.last().node is Dummy {
        cleaned(list.drop_last())
    } else {
        cleaned(list.drop_last()).push(without_dummies(list.last()))
    }
}

/// No block of `ast` holds a placeholder, at any depth.
pub open spec fn dummy_free(ast: AstView) -> bool
    decreases ast,
{
    match ast.node {
        AstNodeView::Compound(list) => all_dummy_free(list),
        AstNodeView::If { cond, body, otherwise } => dummy_free(*body) && match otherwise {
            Some(o) => dummy_free(*o),
            None => true,
        },
        AstNodeView::While { cond, body } => dummy_free(*body),
        AstNodeView::DoWhile { cond, body } => dummy_free(*body),
        AstNodeView::For { init, cond, upd, body } => dummy_free(*body),
        AstNodeView::Switch { cond, cases, body } => dummy_free(*body),
        _ => true,
    }
}

/// No statement of `list` is a placeholder, and no block of one of them holds one.
pub open spec fn all_dummy_free(list: Seq<AstView>) -> bool
    decreases list,
{
    list.len() > 0 ==> !(list.last().node is Dummy) && dummy_free(list.last()) && all_dummy_free(
        list.drop_last(),
    )
}

/// Once the placeholders are removed, no block holds a placeholder.
pub proof fn without_dummies_is_dummy_free(ast: AstView)
    ensures
        dummy_free(without_dummies(ast)),
    decreases ast,
{
    match ast.node {
        AstNodeView::Compound(list) => {
            cleaned_is_dummy_free(list);
        },
        AstNodeView::If { cond, body, otherwise } => {
            without_dummies_is_dummy_free(*body);
            match otherwise {
                Some(o) => {
                    without_dummies_is_dummy_free(*o);
                },
                None => {},
            }
        },
        AstNodeView::While { cond, body } => {
            without_dummies_is_dummy_free(*body);
        },
        AstNodeView::DoWhile { cond, body } => {
            without_dummies_is_dummy_free(*body);
        },
        AstNodeView::For { init, cond, upd, body } => {
            without_dummies_is_dummy_free(*body);
        },
        AstNodeView::Switch { cond, cases, body } => {
            without_dummies_is_dummy_free(*body);
        },
        _ => {},
    }
}

/// The same for the statements of a block.
pub proof fn cleaned_is_dummy_free(list: Seq<AstView>)
    ensures
        all_dummy_free(cleaned(list)),
    decreases list,
{
    if list.len() > 0 {
        cleaned_is_dummy_free(list.drop_last());
        if !(list.last().node is Dummy) {
            without_dummies_is_dummy_free(list.last());
            let rest = cleaned(list.drop_last());
            let more = rest.push(without_dummies(list.last()));
            assert(more.drop_last() =~= rest);
            assert(more.last() == without_dummies(list.last()));
        }
    }
}

/// Removes the placeholders from the blocks of `ast`, at any depth.
pub fn remove_dummy(ast: Ast) -> (r: Ast)
    ensures
        r@ == without_dummies(ast@),
    decreases ast,
{
    let Ast { node, range, label } = ast;
    let node = match node {
        AstNode::Compound(v) => {
            let kept = remove_dummies(v);
            let r = Ast { node: AstNode::Compound(kept), range, label };
            assert(r@.node->Compound_0 =~= views(kept@));
            assert(ast@.node->Compound_0 =~= views(v@));
            return r;
        },
        AstNode::If { cond, body, otherwise } => AstNode::If {
            cond,
            body: Box::new(remove_dummy(*body)),
            otherwise: match otherwise {
                Some(o) => Some(Box::new(remove_dummy(*o))),
                None => None,
            },
        },
        AstNode::While { cond, body } => AstNode::While { cond, body: Box::new(remove_dummy(*body)) },
        AstNode::DoWhile { cond, body } => AstNode::DoWhile {
            cond,
            body: Box::new(remove_dummy(*body)),
        },
        AstNode::For { init, cond, upd, body } => AstNode::For {
            init,
            cond,
            upd,
            body: Box::new(remove_dummy(*body)),
        },
        AstNode::Switch { cond, cases, body } => AstNode::Switch {
            cond,
            cases,
            body: Box::new(remove_dummy(*body)),
        },
        other => other,
    };
    Ast { node, range, label }
}

/// The statements of `list` that are no placeholders, each without the placeholders in
/// its blocks.
fn remove_dummies(list: Vec<Ast>) -> (r: Vec<Ast>)
    ensures
        views(r@) == cleaned(views(list@)),
    decreases list,
{
    let mut rest = list;
    let mut kept: Vec<Ast> = Vec::new();
    assert(views(kept@) =~= Seq::empty());
    while rest.len() > 0
        invariant
            rest@.len() <= list@.len(),
            forall|i: int| 0 <= i < rest@.len() ==> rest@[i] == list@[i],
            cleaned(views(list@)) == cleaned(views(rest@)) + views(kept@),
        decreases rest.len(),
    {
        let ghost before = rest@;
        let ghost had = views(kept@);
        let last = match rest.pop() {
            Some(last) => last,
            None => {
                return kept;
            },
        };
        proof {
            assert(views(before).drop_last() =~= views(rest@));
            assert(views(before).last() == last@);
            assert(last == list@[rest@.len() as int]);
        }
        let dummy = match &last.node {
            AstNode::Dummy => true,
            _ => false,
        };
        if !dummy {
            let cleaned_last = remove_dummy(last);
            kept.insert(0, cleaned_last);
            proof {
                assert(views(kept@) =~= seq![cleaned_last@] + had);
                assert(cleaned(views(before)) + had =~= cleaned(views(rest@)) + views(kept@));
            }
        }
    }
    assert(views(rest@) =~= Seq::empty());
    assert(cleaned(views(list@)) =~= views(kept@));
    kept
}

/// The nodes at the top of a tree: the children of the root, or the root itself where it
/// has none.
pub open spec fn top_level(root: SyntaxNode) -> Seq<SyntaxNode> {
    if root.children.len() == 0 {
        seq![root]
    } else {
        root.children@
    }
}

/// The body of the function named `target`, looked for in the top-level nodes from
/// node `i` on.
///
/// Of each top-level node the first function definition inside it counts. A function
/// definition must have a body and a declarator, whatever its name; one without a name is
/// passed over.
pub open spec fn function_from(root: SyntaxNode, i: nat, target: Seq<char>, content: Seq<u8>) -> Result<
    AstView,
    ErrorView,
>
    decreases top_level(root).len() - i,
{
    if i >= top_level(root).len() {
        Err(
            ErrorView::FunctionNotFound {
                src: target,
                range: (Range { start: 0, end: vstd::utf8::encode_utf8(target).len() as usize }),
            },
        )
    } else {
        match first_of_kind(top_level(root)[i as int], "function_definition"@) {
            None => function_from(root, i + 1, target, content),
            Some(function) => match function.field("body"@) {
                None => Err(ErrorView::ChildNotFound),
                Some(stats) => match function.field("declarator"@) {
                    None => Err(ErrorView::DeclaratorNotFound),
                    Some(declarator) => match first_of_kind(declarator, "identifier"@) {
                        None => function_from(root, i + 1, target, content),
                        Some(name) => match name.text(content) {
                            Err(e) => Err(e),
                            Ok(text) => if text != target {
                                function_from(root, i + 1, target, content)
                            } else {
                                match statement(stats, content) {
                                    Err(e) => Err(e),
                                    Ok(ast) => Ok(without_dummies(ast)),
                                }
                            },
                        },
                    },
                },
            },
        }
    }
}

/// The name of the function that is looked for: `main` unless another is given.
pub open spec fn target_of(function_name: Option<String>) -> Seq<char> {
    match function_name {
        Some(name) => name@,
        None => "main"@,
    }
}

/// The body of the function `function_name`, or of `main` where no name is given, as a
/// statement tree of which no block holds a placeholder.
///
/// The function is looked for at the top level of the syntax tree `root` of the source
/// `content`. It fails with `FunctionNotFound` where there is none of that name, and as
/// `function_from` says where the tree is not as expected.
pub fn parse(root: &SyntaxNode, content: &[u8], function_name: Option<String>) -> (r: Result<
    Ast,
    Error,
>)
    requires
        root.spans_within(content@.len()),
    ensures
        agrees(r, function_from(*root, 0, target_of(function_name), content@)),
        r matches Ok(ast) ==> dummy_free(ast@),
{
    let target = match function_name {
        Some(name) => name,
        None => String::from_str("main"),
    };
    let alone = root.children.len() == 0;
    let count: usize = if alone {
        1
    } else {
        root.children.len()
    };
    let mut i: usize = 0;
    while i < count
        invariant
            i <= count,
            count == top_level(*root).len(),
            alone == (root.children.len() == 0),
            root.spans_within(content@.len()),
            target@ == target_of(function_name),
            function_from(*root, 0, target@, content@) == function_from(
                *root,
                i as nat,
                target@,
                content@,
            ),
        decreases count - i,
    {
        let candidate = if alone {
            root
        } else {
            &root.children[i]
        };
        assert(*candidate == top_level(*root)[i as int]);
        let function = filter_ast_first(candidate, "function_definition");
        i += 1;
        if let Some(function) = function {
            let stats = match function.child_by_field_name("body") {
                Some(found) => found,
                None => {
                    return Err(Error::ChildNotFound);
                },
            };
            let declarator = match function.child_by_field_name("declarator") {
                Some(found) => found,
                None => {
                    return Err(Error::DeclaratorNotFound);
                },
            };
            if let Some(name) = filter_ast_first(declarator, "identifier") {
                let text = match name.utf8_text(content) {
                    Ok(text) => text,
                    Err(e) => {
                        return Err(e);
                    },
                };
                if same(text.as_str(), target.as_str()) {
                    return match parse_stat(stats, content) {
                        Ok(ast) => {
                            proof {
                                without_dummies_is_dummy_free(ast@);
                            }
                            Ok(remove_dummy(ast))
                        },
                        Err(e) => Err(e),
                    };
                }
            }
        }
    }
    let end = target.as_str().len();
    Err(Error::FunctionNotFound { src: target, range: Range { start: 0, end } })
}

} // verus!
