use cxx2flow::ast::{filter_ast, filter_ast_first, Ast, AstNode};
use cxx2flow::error::Error;
use cxx2flow::parser::{parse, parse_single_stat, parse_stat, remove_dummy};
use cxx2flow::syntax::SyntaxNode;

fn node(kind: &str, field: Option<&str>, span: (usize, usize), children: Vec<SyntaxNode>) -> SyntaxNode {
    SyntaxNode {
        kind: kind.to_string(),
        field_name: field.map(|f| f.to_string()),
        start_byte: span.0,
        end_byte: span.1,
        children,
    }
}

fn token(kind: &str, span: (usize, usize)) -> SyntaxNode {
    node(kind, None, span, vec![])
}

// 0         1         2
// 0123456789012345678901234567
// int main() { x = 1; return; }
const SOURCE: &[u8] = b"int main() { x = 1; return; }";

fn body() -> SyntaxNode {
    node(
        "compound_statement",
        Some("body"),
        (11, 29),
        vec![
            token("{", (11, 12)),
            token("expression_statement", (13, 19)),
            token("return_statement", (20, 27)),
            token("}", (28, 29)),
        ],
    )
}

fn function(name: (usize, usize), body: Option<SyntaxNode>, declarator: bool) -> SyntaxNode {
    let mut children = vec![token("primitive_type", (0, 3))];
    if declarator {
        children.push(node(
            "function_declarator",
            Some("declarator"),
            (4, 10),
            vec![
                node("identifier", Some("declarator"), name, vec![]),
                token("parameter_list", (8, 10)),
            ],
        ));
    }
    if let Some(body) = body {
        children.push(body);
    }
    node("function_definition", None, (0, 29), children)
}

fn unit(children: Vec<SyntaxNode>) -> SyntaxNode {
    node("translation_unit", None, (0, 29), children)
}

fn texts(ast: &Ast) -> Vec<String> {
    match &ast.node {
        AstNode::Compound(list) => list
            .iter()
            .map(|s| match &s.node {
                AstNode::Stat(e) => format!("stat {}", e.string),
                AstNode::Return(e) => format!("return {}", e.string),
                AstNode::Dummy => "dummy".to_string(),
                AstNode::Break(s) => format!("break {}", s),
                AstNode::Continue(s) => format!("continue {}", s),
                AstNode::Goto(s) => format!("goto {}", s),
                _ => "other".to_string(),
            })
            .collect(),
        _ => vec!["no block".to_string()],
    }
}

#[test]
fn spans_are_checked_through_the_whole_tree() {
    let tree = unit(vec![function((4, 8), Some(body()), true)]);
    assert!(tree.check_spans(SOURCE.len()));
    assert!(tree.check_spans(29));
    assert!(!tree.check_spans(28));
    let backwards = unit(vec![token("comment", (9, 3))]);
    assert!(!backwards.check_spans(29));
    assert!(token("x", (0, 0)).check_spans(0));
}

#[test]
fn kind_and_field_are_compared_as_text() {
    let tree = function((4, 8), Some(body()), true);
    assert!(tree.is("function_definition"));
    assert!(!tree.is("function_definitio"));
    assert!(!tree.is(""));
    assert_eq!(tree.child_by_field_name("body").map(|n| n.start_byte), Some(11));
    assert_eq!(tree.child_by_field_name("declarator").map(|n| n.kind.as_str()), Some("function_declarator"));
    assert!(tree.child_by_field_name("bod").is_none());
    assert!(tree.child_by_field_name("type").is_none());
}

#[test]
fn the_first_child_of_a_field_wins() {
    let tree = node(
        "x",
        None,
        (0, 4),
        vec![
            token("a", (0, 1)),
            node("b", Some("f"), (1, 2), vec![]),
            node("c", Some("f"), (2, 3), vec![]),
        ],
    );
    assert_eq!(tree.child_by_field_name("f").map(|n| n.kind.as_str()), Some("b"));
}

#[test]
fn text_of_a_node() {
    let tree = token("identifier", (4, 8));
    assert_eq!(tree.utf8_text(SOURCE).unwrap(), "main");
    assert_eq!(token("nothing", (5, 5)).utf8_text(SOURCE).unwrap(), "");
    let broken = [b'a', 0xff, b'b'];
    assert!(matches!(token("x", (0, 3)).utf8_text(&broken), Err(Error::UTF8(_))));
    assert_eq!(token("x", (2, 3)).utf8_text(&broken).unwrap(), "b");
    let accent = "é".as_bytes();
    assert_eq!(token("x", (0, 2)).utf8_text(accent).unwrap(), "é");
    assert!(matches!(token("x", (0, 1)).utf8_text(accent), Err(Error::UTF8(_))));
}

#[test]
fn search_goes_through_the_tree_in_walking_order() {
    let tree = node(
        "a",
        None,
        (0, 9),
        vec![
            node("b", None, (0, 4), vec![token("x", (0, 1)), token("a", (1, 2))]),
            token("x", (4, 5)),
            node("a", None, (5, 9), vec![token("x", (6, 7))]),
        ],
    );
    assert_eq!(filter_ast_first(&tree, "a").map(|n| (n.start_byte, n.end_byte)), Some((0, 9)));
    assert_eq!(filter_ast_first(&tree, "x").map(|n| (n.start_byte, n.end_byte)), Some((0, 1)));
    assert_eq!(filter_ast_first(&tree, "b").map(|n| n.end_byte), Some(4));
    assert!(filter_ast_first(&tree, "y").is_none());
    let all: Vec<(usize, usize)> =
        filter_ast(&tree, "x").iter().map(|n| (n.start_byte, n.end_byte)).collect();
    assert_eq!(all, vec![(0, 1), (4, 5), (6, 7)]);
    let all: Vec<(usize, usize)> =
        filter_ast(&tree, "a").iter().map(|n| (n.start_byte, n.end_byte)).collect();
    assert_eq!(all, vec![(0, 9), (1, 2), (5, 9)]);
    assert!(filter_ast(&tree, "y").is_empty());
}

#[test]
fn a_block_keeps_a_placeholder_for_each_token() {
    let ast = parse_stat(&body(), SOURCE).unwrap();
    assert_eq!(ast.range, 11..29);
    assert_eq!(ast.label, None);
    assert_eq!(texts(&ast), vec!["dummy", "stat x = 1;", "return return;", "dummy"]);
    let cleaned = remove_dummy(ast);
    assert_eq!(cleaned.range, 11..29);
    assert_eq!(texts(&cleaned), vec!["stat x = 1;", "return return;"]);
}

#[test]
fn placeholders_are_removed_at_every_depth() {
    let dummy = || Ast::new(AstNode::Dummy, 0..0, None);
    let stat = |t: &str| Ast::new(AstNode::Break(t.to_string()), 0..0, None);
    let inner = Ast::new(AstNode::Compound(vec![dummy(), stat("a"), dummy(), stat("b")]), 1..2, None);
    let tree = Ast::new(
        AstNode::Compound(vec![
            dummy(),
            Ast::new(
                AstNode::While {
                    cond: cxx2flow::ast::Expr { string: "c".to_string(), func_call: Default::default() },
                    body: Box::new(inner),
                },
                3..4,
                Some(vec!["l".to_string()]),
            ),
            dummy(),
        ]),
        5..6,
        None,
    );
    let cleaned = remove_dummy(tree);
    match cleaned.node {
        AstNode::Compound(list) => {
            assert_eq!(list.len(), 1);
            assert_eq!(list[0].range, 3..4);
            assert_eq!(list[0].label, Some(vec!["l".to_string()]));
            match &list[0].node {
                AstNode::While { cond, body } => {
                    assert_eq!(cond.string, "c");
                    assert_eq!(body.range, 1..2);
                    assert_eq!(texts(body), vec!["break a", "break b"]);
                }
                _ => panic!("no loop"),
            }
        }
        _ => panic!("no block"),
    }
    let alone = remove_dummy(dummy());
    assert!(matches!(alone.node, AstNode::Dummy));
}

#[test]
fn an_empty_block_has_no_statements() {
    let ast = parse_stat(&token("compound_statement", (11, 29)), SOURCE).unwrap();
    assert!(matches!(&ast.node, AstNode::Compound(list) if list.is_empty()));
}

#[test]
fn what_is_no_statement_is_a_garbage_token() {
    match parse_single_stat(&token("comment", (0, 3)), SOURCE) {
        Err(Error::GarbageToken(kind)) => assert_eq!(kind, "comment"),
        other => panic!("unexpected result: {:?}", other),
    }
    let ast = parse_stat(&token("comment", (2, 5)), SOURCE).unwrap();
    assert!(matches!(ast.node, AstNode::Dummy));
    assert_eq!(ast.range, 2..5);
}

#[test]
fn jumps_have_fixed_texts() {
    let ast = parse_single_stat(&token("continue_statement", (0, 3)), SOURCE).unwrap();
    assert!(matches!(&ast.node, AstNode::Continue(text) if text == "continue"));
    assert_eq!(ast.range, 0..3);
    let ast = parse_single_stat(&token("break_statement", (4, 8)), SOURCE).unwrap();
    assert!(matches!(&ast.node, AstNode::Break(text) if text == "break"));
    let ast = parse_single_stat(&token("declaration", (0, 10)), SOURCE).unwrap();
    assert!(matches!(&ast.node, AstNode::Stat(e) if e.string == "int main()" && e.func_call.is_empty()));
}

#[test]
fn if_needs_condition_and_consequence() {
    let cond = || node("condition_clause", Some("condition"), (4, 8), vec![]);
    let then = || node("expression_statement", Some("consequence"), (13, 19), vec![]);
    let other = || node("return_statement", Some("alternative"), (20, 27), vec![]);
    let full = node("if_statement", None, (0, 29), vec![cond(), then(), other()]);
    let ast = parse_stat(&full, SOURCE).unwrap();
    match &ast.node {
        AstNode::If { cond, body, otherwise } => {
            assert_eq!(cond.string, "main");
            assert!(matches!(&body.node, AstNode::Stat(e) if e.string == "x = 1;"));
            let otherwise = otherwise.as_ref().unwrap();
            assert!(matches!(&otherwise.node, AstNode::Return(e) if e.string == "return;"));
        }
        _ => panic!("no if"),
    }
    let short = node("if_statement", None, (0, 29), vec![cond(), then()]);
    assert!(matches!(
        parse_stat(&short, SOURCE).unwrap().node,
        AstNode::If { otherwise: None, .. }
    ));
    let no_cond = node("if_statement", None, (0, 29), vec![then()]);
    assert!(matches!(parse_stat(&no_cond, SOURCE), Err(Error::ChildNotFound)));
    let no_then = node("if_statement", None, (0, 29), vec![cond(), other()]);
    assert!(matches!(parse_stat(&no_then, SOURCE), Err(Error::ChildNotFound)));
}

#[test]
fn loops_need_condition_and_body() {
    let cond = || node("condition_clause", Some("condition"), (4, 8), vec![]);
    let inner = || node("expression_statement", Some("body"), (13, 19), vec![]);
    let ast = parse_stat(&node("while_statement", None, (0, 29), vec![cond(), inner()]), SOURCE).unwrap();
    assert!(matches!(&ast.node, AstNode::While { cond, body }
        if cond.string == "main" && matches!(&body.node, AstNode::Stat(e) if e.string == "x = 1;")));
    let ast = parse_stat(&node("do_statement", None, (0, 29), vec![inner(), cond()]), SOURCE).unwrap();
    assert!(matches!(&ast.node, AstNode::DoWhile { cond, body }
        if cond.string == "main" && matches!(&body.node, AstNode::Stat(e) if e.string == "x = 1;")));
    for kind in ["while_statement", "do_statement"] {
        assert!(matches!(
            parse_stat(&node(kind, None, (0, 29), vec![cond()]), SOURCE),
            Err(Error::ChildNotFound)
        ));
        assert!(matches!(
            parse_stat(&node(kind, None, (0, 29), vec![inner()]), SOURCE),
            Err(Error::ChildNotFound)
        ));
    }
}

#[test]
fn for_reads_missing_clauses_as_defaults() {
    let bare = node("for_statement", None, (0, 29), vec![token("for", (0, 3)), token("break_statement", (4, 8))]);
    let ast = parse_stat(&bare, SOURCE).unwrap();
    match &ast.node {
        AstNode::For { init, cond, upd, body } => {
            assert_eq!(init.string, "");
            assert_eq!(cond.string, "true");
            assert_eq!(upd.string, "");
            assert!(matches!(&body.node, AstNode::Break(_)));
        }
        _ => panic!("no for"),
    }
    let full = node(
        "for_statement",
        None,
        (0, 29),
        vec![
            node("declaration", Some("initializer"), (0, 3), vec![]),
            node("binary_expression", Some("condition"), (4, 8), vec![]),
            node("update_expression", Some("update"), (13, 18), vec![]),
            node("continue_statement", Some("body"), (20, 27), vec![]),
        ],
    );
    let ast = parse_stat(&full, SOURCE).unwrap();
    assert!(matches!(&ast.node, AstNode::For { init, cond, upd, body }
        if init.string == "int" && cond.string == "main" && upd.string == "x = 1"
            && matches!(&body.node, AstNode::Continue(_))));
    assert!(matches!(
        parse_stat(&token("for_statement", (0, 29)), SOURCE),
        Err(Error::ChildNotFound)
    ));
}

#[test]
fn labels_pile_up_on_the_statement_at_the_end() {
    // 0123456789
    // a: b: x;
    let source = b"a: b: x;";
    let inner = node(
        "labeled_statement",
        None,
        (3, 8),
        vec![
            node("statement_identifier", Some("label"), (3, 4), vec![]),
            token(":", (4, 5)),
            token("expression_statement", (6, 8)),
        ],
    );
    let outer = node(
        "labeled_statement",
        None,
        (0, 8),
        vec![node("statement_identifier", Some("label"), (0, 1), vec![]), token(":", (1, 2)), inner],
    );
    let ast = parse_stat(&outer, source).unwrap();
    assert_eq!(ast.label, Some(vec!["a".to_string(), "b".to_string()]));
    assert_eq!(ast.range, 6..8);
    assert!(matches!(&ast.node, AstNode::Stat(e) if e.string == "x;"));
    let unlabeled = node("labeled_statement", None, (0, 8), vec![token("expression_statement", (6, 8))]);
    assert!(matches!(parse_stat(&unlabeled, source), Err(Error::ChildNotFound)));
}

#[test]
fn goto_needs_its_label() {
    let source = b"goto out;";
    let full = node(
        "goto_statement",
        None,
        (0, 9),
        vec![token("goto", (0, 4)), node("statement_identifier", Some("label"), (5, 8), vec![])],
    );
    let ast = parse_stat(&full, source).unwrap();
    assert!(matches!(&ast.node, AstNode::Goto(label) if label == "out"));
    let bare = node("goto_statement", None, (0, 9), vec![token("goto", (0, 4))]);
    assert!(matches!(parse_stat(&bare, source), Err(Error::ChildNotFound)));
}

#[test]
fn switch_gathers_the_statements_of_its_cases() {
    //           1         2         3         4
    // 01234567890123456789012345678901234567890123456789
    // switch (x) { case 1: a; case 2: default: b; c; }
    let source = b"switch (x) { case 1: a; case 2: default: b; c; }";
    let case1 = node(
        "case_statement",
        None,
        (13, 23),
        vec![
            token("case", (13, 17)),
            node("number_literal", Some("value"), (18, 19), vec![]),
            token(":", (19, 20)),
            token("expression_statement", (21, 23)),
        ],
    );
    let case2 = node(
        "case_statement",
        None,
        (24, 31),
        vec![
            token("case", (24, 28)),
            node("number_literal", Some("value"), (29, 30), vec![]),
            token(":", (30, 31)),
        ],
    );
    let fallback = node(
        "case_statement",
        None,
        (32, 46),
        vec![
            token("default", (32, 39)),
            token(":", (39, 40)),
            token("comment", (40, 40)),
            token("expression_statement", (41, 43)),
            token("break_statement", (44, 46)),
        ],
    );
    let body = node(
        "compound_statement",
        Some("body"),
        (11, 48),
        vec![token("{", (11, 12)), case1, case2, fallback, token("}", (47, 48))],
    );
    let tree = node(
        "switch_statement",
        None,
        (0, 48),
        vec![
            token("switch", (0, 6)),
            node("condition_clause", Some("condition"), (7, 10), vec![]),
            body,
        ],
    );
    let ast = parse_stat(&tree, source).unwrap();
    assert_eq!(ast.range, 0..48);
    match &ast.node {
        AstNode::Switch { cond, cases, body } => {
            assert_eq!(cond.string, "(x)");
            assert_eq!(cases, &vec!["1".to_string(), "2".to_string(), "default".to_string()]);
            assert_eq!(body.range, 0..48);
            assert_eq!(texts(body), vec!["stat a;", "stat b;", "break break"]);
            match &body.node {
                AstNode::Compound(list) => {
                    assert_eq!(list[0].label, Some(vec!["1".to_string()]));
                    assert_eq!(list[1].label, Some(vec!["2".to_string(), "default".to_string()]));
                    assert_eq!(list[2].label, None);
                }
                _ => panic!("no block"),
            }
        }
        _ => panic!("no switch"),
    }
}

#[test]
fn switch_needs_condition_body_and_cases() {
    let source = b"switch (x) { }";
    let cond = || node("condition_clause", Some("condition"), (7, 10), vec![]);
    let no_body = node("switch_statement", None, (0, 14), vec![cond()]);
    assert!(matches!(parse_stat(&no_body, source), Err(Error::ChildNotFound)));
    let no_cond = node(
        "switch_statement",
        None,
        (0, 14),
        vec![node("compound_statement", Some("body"), (11, 14), vec![token("{", (11, 12))])],
    );
    assert!(matches!(parse_stat(&no_cond, source), Err(Error::ChildNotFound)));
    let hollow = node(
        "switch_statement",
        None,
        (0, 14),
        vec![cond(), node("compound_statement", Some("body"), (11, 14), vec![])],
    );
    assert!(matches!(parse_stat(&hollow, source), Err(Error::ChildNotFound)));
    let braces_only = node(
        "switch_statement",
        None,
        (0, 14),
        vec![
            cond(),
            node(
                "compound_statement",
                Some("body"),
                (11, 14),
                vec![token("{", (11, 12)), token("}", (13, 14))],
            ),
        ],
    );
    assert!(matches!(parse_stat(&braces_only, source), Err(Error::ChildNotFound)));
}

#[test]
fn the_function_is_found_by_its_name() {
    let tree = unit(vec![token("comment", (0, 0)), function((4, 8), Some(body()), true)]);
    let ast = parse(&tree, SOURCE, None).unwrap();
    assert_eq!(texts(&ast), vec!["stat x = 1;", "return return;"]);
    let ast = parse(&tree, SOURCE, Some("main".to_string())).unwrap();
    assert_eq!(texts(&ast), vec!["stat x = 1;", "return return;"]);
}

#[test]
fn a_function_of_another_name_is_not_found() {
    let tree = unit(vec![function((4, 8), Some(body()), true)]);
    match parse(&tree, SOURCE, Some("helper".to_string())) {
        Err(Error::FunctionNotFound { src, range }) => {
            assert_eq!(src, "helper");
            assert_eq!(range, 0..6);
        }
        other => panic!("unexpected result: {:?}", other),
    }
    match parse(&unit(vec![]), SOURCE, None) {
        Err(Error::FunctionNotFound { src, range }) => {
            assert_eq!(src, "main");
            assert_eq!(range, 0..4);
        }
        other => panic!("unexpected result: {:?}", other),
    }
}

#[test]
fn a_function_without_declarator_or_body_is_an_error() {
    let tree = unit(vec![function((4, 8), Some(body()), false)]);
    assert!(matches!(parse(&tree, SOURCE, None), Err(Error::DeclaratorNotFound)));
    let tree = unit(vec![function((4, 8), None, true)]);
    assert!(matches!(parse(&tree, SOURCE, None), Err(Error::ChildNotFound)));
    let tree = unit(vec![function((4, 8), None, false)]);
    assert!(matches!(parse(&tree, SOURCE, None), Err(Error::ChildNotFound)));
    // The function in front of the wanted one is held to the same.
    let tree = unit(vec![function((0, 3), None, true), function((4, 8), Some(body()), true)]);
    assert!(matches!(parse(&tree, SOURCE, None), Err(Error::ChildNotFound)));
}

#[test]
fn a_function_of_another_name_in_front_is_passed_over() {
    let tree = unit(vec![function((0, 3), Some(body()), true), function((4, 8), Some(body()), true)]);
    assert!(parse(&tree, SOURCE, None).is_ok());
    assert!(parse(&tree, SOURCE, Some("int".to_string())).is_ok());
    assert!(matches!(
        parse(&tree, SOURCE, Some("in".to_string())),
        Err(Error::FunctionNotFound { .. })
    ));
}

#[test]
fn a_root_without_children_stands_for_itself() {
    let alone = function((4, 8), Some(body()), true);
    let children = alone.children;
    let childless_root = node("function_definition", None, (0, 29), vec![]);
    assert!(matches!(parse(&childless_root, SOURCE, None), Err(Error::ChildNotFound)));
    // With children the root is not looked at itself, only what is below each child.
    let root = node("function_definition", None, (0, 29), children);
    assert!(matches!(parse(&root, SOURCE, None), Err(Error::FunctionNotFound { .. })));
}

#[test]
fn a_name_that_is_not_text_is_an_error() {
    let source = [b'i', b'n', b't', b' ', 0xff, 0xfe, b'(', b')', b' ', b'{', b'}'];
    let tree = node(
        "translation_unit",
        None,
        (0, 11),
        vec![node(
            "function_definition",
            None,
            (0, 11),
            vec![
                node(
                    "function_declarator",
                    Some("declarator"),
                    (4, 8),
                    vec![node("identifier", Some("declarator"), (4, 6), vec![])],
                ),
                node("compound_statement", Some("body"), (9, 11), vec![]),
            ],
        )],
    );
    assert!(matches!(parse(&tree, &source, None), Err(Error::UTF8(_))));
}
