use oxc_lint_core::ast::{Argument, CallExpression, Expression, MemberExpression};
use oxc_lint_core::lint::{lint_file, Semantic};
use oxc_lint_core::module_record::{ModuleGraph, ModuleRecord};
use oxc_lint_core::node::{AstKind, AstNode, AstNodes, NodeFlags, Span};
use oxc_lint_core::prefer_reflect_apply::PreferReflectApply;

fn id(name: &str) -> Expression {
    Expression::Identifier(name.to_string())
}

fn member(object: Expression, name: &str) -> Expression {
    Expression::MemberExpression(Box::new(MemberExpression {
        object,
        static_property_name: Some(name.to_string()),
    }))
}

fn computed(object: Expression) -> Expression {
    Expression::MemberExpression(Box::new(MemberExpression { object, static_property_name: None }))
}

fn arg(e: Expression) -> Argument {
    Argument::Expression(e)
}

fn function_prototype_apply_call() -> Expression {
    member(member(member(id("Function"), "prototype"), "apply"), "call")
}

fn call(callee: Expression, arguments: Vec<Argument>) -> AstKind {
    AstKind::CallExpression(CallExpression { span: Span { start: 0, end: 20 }, callee, arguments, optional: false })
}

fn reports(kind: AstKind) -> usize {
    let mut nodes = AstNodes::default();
    let root = nodes.add_node(AstNode::new(AstKind::Program(Span { start: 0, end: 20 }), 0, 0, NodeFlags { bits: 0 }), None);
    nodes.add_node(AstNode::new(kind, 0, 0, NodeFlags { bits: 0 }), Some(root));
    let mut modules = ModuleGraph::new();
    let file = modules.add_module(ModuleRecord::new("/p/a.js".to_string())).unwrap();
    let sem = Semantic { nodes, modules, module_id: file };
    lint_file(&PreferReflectApply::from_configuration(oxc_lint_core::config::ConfigValue::Null), &sem, "/p".to_string()).len()
}

fn null() -> Argument {
    arg(Expression::NullLiteral)
}

fn this() -> Argument {
    arg(Expression::ThisExpression)
}

fn array() -> Argument {
    arg(Expression::ArrayExpression)
}

fn arguments() -> Argument {
    arg(id("arguments"))
}

#[test]
fn prefer_reflect_apply_test() {
    let foo_apply = || member(id("foo"), "apply");
    let pass = vec![
        call(foo_apply(), vec![]),
        call(foo_apply(), vec![null()]),
        call(foo_apply(), vec![this()]),
        call(foo_apply(), vec![null(), arg(Expression::Literal)]),
        call(foo_apply(), vec![this(), arg(Expression::Literal)]),
        call(foo_apply(), vec![arg(id("bar")), arguments()]),
        call(member(Expression::ArrayExpression, "apply"), vec![null(), array()]),
        call(foo_apply(), vec![arg(id("bar"))]),
        call(foo_apply(), vec![arg(id("bar")), array()]),
        AstKind::Other(1),
        AstKind::Other(2),
        call(member(id("Reflect"), "apply"), vec![arg(id("foo")), null()]),
        call(member(id("Reflect"), "apply"), vec![arg(id("foo")), null(), array()]),
        call(computed(id("foo")), vec![null(), array()]),
    ];
    let fail = vec![
        call(foo_apply(), vec![null(), array()]),
        call(member(member(id("foo"), "bar"), "apply"), vec![null(), array()]),
        call(function_prototype_apply_call(), vec![arg(id("foo")), null(), array()]),
        call(function_prototype_apply_call(), vec![arg(member(id("foo"), "bar")), null(), array()]),
        call(foo_apply(), vec![null(), arguments()]),
        call(function_prototype_apply_call(), vec![arg(id("foo")), null(), arguments()]),
        call(foo_apply(), vec![this(), array()]),
        call(function_prototype_apply_call(), vec![arg(id("foo")), this(), array()]),
        call(foo_apply(), vec![this(), arguments()]),
        call(function_prototype_apply_call(), vec![arg(id("foo")), this(), arguments()]),
        call(foo_apply(), vec![null(), array()]),
    ];
    for (i, kind) in pass.into_iter().enumerate() {
        assert_eq!(reports(kind), 0, "pass case {}", i);
    }
    for (i, kind) in fail.into_iter().enumerate() {
        assert_eq!(reports(kind), 1, "fail case {}", i);
    }
}

#[test]
fn optional_and_literal_receivers_are_not_reported() {
    let optional = AstKind::CallExpression(CallExpression {
        span: Span { start: 0, end: 5 },
        callee: member(id("foo"), "apply"),
        arguments: vec![null(), array()],
        optional: true,
    });
    assert_eq!(reports(optional), 0);
    assert_eq!(reports(call(member(Expression::ObjectExpression, "apply"), vec![null(), array()])), 0);
    assert_eq!(reports(call(member(Expression::Literal, "apply"), vec![null(), array()])), 0);
    assert_eq!(reports(call(member(id("Object"), "prototype"), vec![null(), array()])), 0);
    let not_function = member(member(member(id("Fn"), "prototype"), "apply"), "call");
    assert_eq!(reports(call(not_function, vec![arg(id("foo")), null(), array()])), 0);
}
