use cxx2flow::ast::{filter_ast_first, AstNode};
use cxx2flow::display::d2::D2;
use cxx2flow::display::dot::Dot;
use cxx2flow::display::GraphDisplayBackend;
use cxx2flow::error::Error;
use cxx2flow::generate;
use cxx2flow::parser::parse;
use cxx2flow::syntax::SyntaxNode;
use tree_sitter::{Node, Parser};

const C_FIXTURE: &str = r#"
int helper(int n) {
    int total = 0;
    for (int i = 0; i < n; i++) {
        if (i % 2 == 0) {
            continue;
        } else {
            total += i;
        }
    }
    while (total > 100) {
        total -= 7;
    }
    do {
        total++;
    } while (total < 3);
    switch (total) {
    case 3:
        total = 0;
        break;
    default:
        goto out;
    }
out:
    return total;
}
"#;

const CPP_FIXTURE: &str = r#"
namespace demo {
template <typename T>
class Box {
public:
    T value;
};
enum Color { Red, Green };
}

int main() {
    std::vector<int> items;
    auto twice = [](int x) { return 2 * x; };
    for (int item : items) {
        twice(item);
    }
    try {
        items.clear();
    } catch (...) {
    }
    switch (items.size()) {
    case 0:
        break;
    }
    return demo::Red;
}
"#;

fn mirror(node: Node, field: Option<&str>) -> SyntaxNode {
    let mut children = Vec::new();
    let mut cursor = node.walk();
    if cursor.goto_first_child() {
        loop {
            children.push(mirror(cursor.node(), cursor.field_name()));
            if !cursor.goto_next_sibling() {
                break;
            }
        }
    }
    SyntaxNode {
        kind: node.kind().to_string(),
        field_name: field.map(|name| name.to_string()),
        start_byte: node.start_byte(),
        end_byte: node.end_byte(),
        children,
    }
}

fn parse_tree(content: &str) -> SyntaxNode {
    let mut parser = Parser::new();
    parser
        .set_language(&tree_sitter_cpp::LANGUAGE.into())
        .expect("failed to set tree-sitter cpp language");
    let tree = parser.parse(content, None).expect("failed to parse fixture with tree-sitter");
    mirror(tree.root_node(), None)
}

fn dot_of(content: &str, function: &str) -> Result<String, Error> {
    let root = parse_tree(content);
    assert!(root.check_spans(content.len()));
    generate(
        &root,
        content.as_bytes(),
        Some(function.to_string()),
        GraphDisplayBackend::Dot(Dot::new(false)),
    )
}

#[test]
fn tree_sitter_core_kinds_exist() {
    let root = parse_tree(C_FIXTURE);

    for kind in [
        "function_definition",
        "if_statement",
        "while_statement",
        "do_statement",
        "for_statement",
        "switch_statement",
        "goto_statement",
        "continue_statement",
        "break_statement",
        "return_statement",
        "labeled_statement",
        "case_statement",
    ] {
        assert!(
            filter_ast_first(&root, kind).is_some(),
            "expected to find node kind `{kind}` in syntax_contract.c"
        );
    }
}

#[test]
fn tree_sitter_required_fields_exist() {
    let root = parse_tree(C_FIXTURE);

    let function = filter_ast_first(&root, "function_definition")
        .expect("missing function_definition in syntax_contract.c");
    assert!(
        function.child_by_field_name("declarator").is_some(),
        "function_definition should have `declarator` field"
    );
    assert!(
        function.child_by_field_name("body").is_some(),
        "function_definition should have `body` field"
    );

    let if_stmt = filter_ast_first(&root, "if_statement").expect("missing if_statement node");
    assert!(
        if_stmt.child_by_field_name("condition").is_some(),
        "if_statement should have `condition` field"
    );
    assert!(
        if_stmt.child_by_field_name("consequence").is_some(),
        "if_statement should have `consequence` field"
    );

    let while_stmt =
        filter_ast_first(&root, "while_statement").expect("missing while_statement node");
    assert!(
        while_stmt.child_by_field_name("condition").is_some(),
        "while_statement should have `condition` field"
    );
    assert!(
        while_stmt.child_by_field_name("body").is_some(),
        "while_statement should have `body` field"
    );

    let do_stmt = filter_ast_first(&root, "do_statement").expect("missing do_statement node");
    assert!(
        do_stmt.child_by_field_name("condition").is_some(),
        "do_statement should have `condition` field"
    );
    assert!(
        do_stmt.child_by_field_name("body").is_some(),
        "do_statement should have `body` field"
    );

    let for_stmt = filter_ast_first(&root, "for_statement").expect("missing for_statement node");
    assert!(
        for_stmt.child_by_field_name("initializer").is_some(),
        "for_statement should have `initializer` field"
    );
    assert!(
        for_stmt.child_by_field_name("condition").is_some(),
        "for_statement should have `condition` field"
    );
    assert!(
        for_stmt.child_by_field_name("update").is_some(),
        "for_statement should have `update` field"
    );

    let switch_stmt =
        filter_ast_first(&root, "switch_statement").expect("missing switch_statement node");
    assert!(
        switch_stmt.child_by_field_name("condition").is_some(),
        "switch_statement should have `condition` field"
    );
    assert!(
        switch_stmt.child_by_field_name("body").is_some(),
        "switch_statement should have `body` field"
    );

    let goto_stmt =
        filter_ast_first(&root, "goto_statement").expect("missing goto_statement node");
    assert!(
        goto_stmt.child_by_field_name("label").is_some(),
        "goto_statement should have `label` field"
    );
}

#[test]
fn tree_sitter_cpp_specific_kinds_exist() {
    let root = parse_tree(CPP_FIXTURE);

    for kind in [
        "namespace_definition",
        "template_declaration",
        "class_specifier",
        "field_declaration_list",
        "lambda_expression",
        "for_range_loop",
        "try_statement",
        "catch_clause",
        "enum_specifier",
        "qualified_identifier",
    ] {
        assert!(
            filter_ast_first(&root, kind).is_some(),
            "expected to find C++ specific node kind `{kind}`"
        );
    }
}

#[test]
fn tree_sitter_cpp_required_fields_exist() {
    let root = parse_tree(CPP_FIXTURE);

    let range_for = filter_ast_first(&root, "for_range_loop")
        .expect("missing for_range_loop in syntax_contract_cpp.cpp");
    assert!(
        range_for.child_by_field_name("type").is_some(),
        "for_range_loop should have `type` field"
    );
    assert!(
        range_for.child_by_field_name("declarator").is_some(),
        "for_range_loop should have `declarator` field"
    );
    assert!(
        range_for.child_by_field_name("right").is_some(),
        "for_range_loop should have `right` field"
    );
    assert!(
        range_for.child_by_field_name("body").is_some(),
        "for_range_loop should have `body` field"
    );

    let function = filter_ast_first(&root, "function_definition")
        .expect("missing function_definition in C++ contract fixture");
    assert!(
        function.child_by_field_name("declarator").is_some(),
        "function_definition should have `declarator` field"
    );
    assert!(
        function.child_by_field_name("body").is_some(),
        "function_definition should have `body` field"
    );

    let switch_stmt =
        filter_ast_first(&root, "switch_statement").expect("missing switch_statement node");
    assert!(
        switch_stmt.child_by_field_name("condition").is_some(),
        "switch_statement should have `condition` field"
    );
    assert!(
        switch_stmt.child_by_field_name("body").is_some(),
        "switch_statement should have `body` field"
    );
}

#[test]
fn a_straight_function_in_dot() {
    let text = dot_of("int main() { int x = 1; return x; }", "main").unwrap();
    assert_eq!(
        text,
        "digraph {\n\
         graph [splines=polyline];\n\
         D0 [shape=box, style=rounded, label=\"begin\"];\n\
         {rank = sink; D1 [shape=box, style=rounded, label=\"end\"];}\n\
         D4 [shape=box, label=\"int x = 1;\"];\n\
         D6 [shape=box, label=\"return x;\"];\n\
         D4 -> D6;\n\
         D6 -> D1;\n\
         D0 -> D4;\n\
         }\n"
    );
}

#[test]
fn an_empty_function_in_d2() {
    let source = "void f() {}";
    let root = parse_tree(source);
    let text = generate(
        &root,
        source.as_bytes(),
        Some("f".to_string()),
        GraphDisplayBackend::D2(D2::new()),
    )
    .unwrap();
    assert_eq!(text, "D0: begin\nD1: end\nD0 -> D1\n");
}

#[test]
fn main_is_the_function_unless_another_is_named() {
    let source = "void f() { a(); }\nint main() { b(); }";
    let root = parse_tree(source);
    let text =
        generate(&root, source.as_bytes(), None, GraphDisplayBackend::D2(D2::new())).unwrap();
    assert_eq!(text, "D0: begin\nD1: end\nD4: \"b();\"\nD4 -> D1\nD0 -> D4\n");
    let text = generate(
        &root,
        source.as_bytes(),
        Some("f".to_string()),
        GraphDisplayBackend::D2(D2::new()),
    )
    .unwrap();
    assert_eq!(text, "D0: begin\nD1: end\nD4: \"a();\"\nD4 -> D1\nD0 -> D4\n");
}

#[test]
fn loops_and_branches_of_a_real_function() {
    let source = "int main() {\n  while (a < b) {\n    if (c) { a++; } else break;\n  }\n  return 0;\n}\n";
    let root = parse_tree(source);
    let ast = parse(&root, source.as_bytes(), None).unwrap();
    let graph = cxx2flow::builder::from_ast(&ast).unwrap();
    let mut decisions = Vec::new();
    let mut instructions = Vec::new();
    for (id, kind) in graph.node_references() {
        match kind {
            cxx2flow::graph::GraphNodeType::Choice(text) => decisions.push((id, text)),
            cxx2flow::graph::GraphNodeType::Node(text) => instructions.push((id, text)),
            _ => {}
        }
    }
    let decisions: Vec<&str> = decisions.iter().map(|d| d.1.as_str()).collect();
    let instructions: Vec<&str> = instructions.iter().map(|d| d.1.as_str()).collect();
    assert_eq!(decisions, vec!["(a < b)", "(c)"]);
    assert_eq!(instructions, vec!["a++;", "break", "return 0;"]);
}

#[test]
fn a_missing_function_is_reported_with_its_name() {
    match dot_of("int main() { return 0; }", "missing_function") {
        Err(Error::FunctionNotFound { src, range }) => {
            assert_eq!(src, "missing_function");
            assert_eq!(range, 0..16);
        }
        other => panic!("unexpected result: {:?}", other),
    }
}

#[test]
fn a_stray_break_is_reported_where_it_stands() {
    assert!(matches!(
        dot_of("int main() { break; }", "main"),
        Err(Error::UnexpectedBreak { range }) if range == (13..19)
    ));
    assert!(matches!(
        dot_of("int main() { if (x) { continue; } }", "main"),
        Err(Error::UnexpectedContinue { range }) if range == (22..31)
    ));
}

#[test]
fn switch_and_goto_of_a_real_function_are_refused() {
    let root = parse_tree(C_FIXTURE);
    let ast = parse(&root, C_FIXTURE.as_bytes(), Some("helper".to_string())).unwrap();
    match &ast.node {
        AstNode::Compound(list) => {
            let switch = list.iter().find(|s| matches!(s.node, AstNode::Switch { .. })).unwrap();
            match &switch.node {
                AstNode::Switch { cond, cases, body } => {
                    assert_eq!(cond.string, "(total)");
                    assert_eq!(cases, &vec!["3".to_string(), "default".to_string()]);
                    match &body.node {
                        AstNode::Compound(stats) => {
                            assert_eq!(stats.len(), 3);
                            assert_eq!(stats[0].label, Some(vec!["3".to_string()]));
                            assert_eq!(stats[1].label, None);
                            assert_eq!(stats[2].label, Some(vec!["default".to_string()]));
                            assert!(matches!(&stats[2].node, AstNode::Goto(l) if l == "out"));
                        }
                        _ => panic!("no block"),
                    }
                }
                _ => unreachable!(),
            }
            let last = list.last().unwrap();
            assert_eq!(last.label, Some(vec!["out".to_string()]));
            assert!(matches!(&last.node, AstNode::Return(e) if e.string == "return total;"));
        }
        _ => panic!("no block"),
    }
    assert!(matches!(
        dot_of(C_FIXTURE, "helper"),
        Err(Error::UnsupportedConstruct { .. })
    ));
}

#[test]
fn a_bare_for_with_break_of_a_real_function() {
    let text = dot_of("int main() { for (;;) { break; } }", "main").unwrap();
    assert_eq!(
        text,
        "digraph {\n\
         graph [splines=polyline];\n\
         D0 [shape=box, style=rounded, label=\"begin\"];\n\
         {rank = sink; D1 [shape=box, style=rounded, label=\"end\"];}\n\
         D6 [shape=diamond, label=\"true?\"];\n\
         D11 [shape=box, label=\"break\"];\n\
         D11 -> D1;\n\
         D6:e -> D1:n [xlabel=N];\n\
         D6:s -> D11:n [xlabel=Y];\n\
         D0 -> D6;\n\
         }\n"
    );
}
