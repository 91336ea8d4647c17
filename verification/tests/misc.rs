use cxx2flow::ast::{Ast, AstNode};
use cxx2flow::counter::Counter;

#[test]
fn counter_counts() {
    let mut counter = Counter::new(5);
    assert_eq!(counter.value, 5);
    assert_eq!(counter.inc(), 6);
    assert_eq!(counter.inc(), 7);
    assert_eq!(counter.reset(), 0);
    assert_eq!(counter.inc(), 1);
    assert_eq!(counter.val(), 1);
}

#[test]
fn counter_starts_where_it_is_told() {
    assert_eq!(Counter::new(-3).val(), -3);
    let mut counter = Counter::new(-1);
    assert_eq!(counter.inc(), 0);
    assert_eq!(counter.value, 0);
}

#[test]
fn ast_new_keeps_its_parts() {
    let ast = Ast::new(
        AstNode::Goto("out".to_string()),
        4..12,
        Some(vec!["a".to_string(), "b".to_string()]),
    );
    assert!(matches!(&ast.node, AstNode::Goto(label) if label == "out"));
    assert_eq!(ast.range, 4..12);
    assert_eq!(ast.label, Some(vec!["a".to_string(), "b".to_string()]));
    let plain = Ast::new(AstNode::Dummy, 0..0, None);
    assert!(matches!(plain.node, AstNode::Dummy));
    assert_eq!(plain.label, None);
}
