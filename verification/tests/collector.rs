use oxc_formatter::argument_collector::ArgumentCollector;
use oxc_formatter::ast::{Ast, NodeId, NodeKind};
use oxc_formatter::error::InvariantViolation;
use oxc_formatter::span::Span;
use oxc_formatter::utils::{
    is_expression_used_as_call_argument, is_long_curried_call, is_node_argument,
};

fn put(ast: &mut Ast, kind: NodeKind, start: u32, end: u32) -> NodeId {
    ast.add(kind, Span::new(start, end)).expect("a well-formed node")
}

fn name(ast: &mut Ast, text: &str, start: u32) -> NodeId {
    put(ast, NodeKind::Identifier { name: text.to_string() }, start, start + text.len() as u32)
}

#[test]
fn collects_the_start_of_every_argument() {
    // f(a, g(b)); new H(...c)
    let mut ast = Ast::new();
    let f = name(&mut ast, "f", 0);
    let a = name(&mut ast, "a", 2);
    let g = name(&mut ast, "g", 5);
    let b = name(&mut ast, "b", 7);
    let inner = put(&mut ast, NodeKind::CallExpression { callee: g, arguments: vec![b], optional: false }, 5, 9);
    let call = put(&mut ast, NodeKind::CallExpression { callee: f, arguments: vec![a, inner], optional: false }, 0, 10);
    let first = put(&mut ast, NodeKind::ExpressionStatement { expression: call }, 0, 11);
    let h = name(&mut ast, "H", 16);
    let c = name(&mut ast, "c", 21);
    let spread = put(&mut ast, NodeKind::SpreadElement { argument: c }, 18, 22);
    let new = put(&mut ast, NodeKind::NewExpression { callee: h, arguments: vec![spread] }, 12, 23);
    let second = put(&mut ast, NodeKind::ExpressionStatement { expression: new }, 12, 23);
    let program = put(&mut ast, NodeKind::Program { body: vec![first, second] }, 0, 23);
    let spans = ArgumentCollector::collect(&ast, program);
    let mut found: Vec<u32> = spans.into_iter().collect();
    found.sort();
    assert_eq!(found, vec![2, 5, 7, 18]);
}

#[test]
fn passes_over_what_it_does_not_search() {
    // for (f(a); g(b); h(c)) x = k(d); with the left side of an assignment m(e).y = 1
    let mut ast = Ast::new();
    let f = name(&mut ast, "f", 5);
    let a = name(&mut ast, "a", 7);
    let init = put(&mut ast, NodeKind::CallExpression { callee: f, arguments: vec![a], optional: false }, 5, 9);
    let g = name(&mut ast, "g", 11);
    let b = name(&mut ast, "b", 13);
    let test = put(&mut ast, NodeKind::CallExpression { callee: g, arguments: vec![b], optional: false }, 11, 15);
    let h = name(&mut ast, "h", 17);
    let c = name(&mut ast, "c", 19);
    let update = put(&mut ast, NodeKind::CallExpression { callee: h, arguments: vec![c], optional: false }, 17, 21);
    let m = name(&mut ast, "m", 23);
    let e = name(&mut ast, "e", 25);
    let left_call = put(&mut ast, NodeKind::CallExpression { callee: m, arguments: vec![e], optional: false }, 23, 27);
    let y = put(&mut ast, NodeKind::IdentifierName { name: "y".to_string() }, 28, 29);
    let left = put(&mut ast, NodeKind::StaticMemberExpression { object: left_call, property: y, optional: false }, 23, 29);
    let k = name(&mut ast, "k", 32);
    let d = name(&mut ast, "d", 34);
    let right = put(&mut ast, NodeKind::CallExpression { callee: k, arguments: vec![d], optional: false }, 32, 36);
    let assignment = put(&mut ast, NodeKind::AssignmentExpression { left, right }, 23, 36);
    let body = put(&mut ast, NodeKind::ExpressionStatement { expression: assignment }, 23, 37);
    let for_statement = put(
        &mut ast,
        NodeKind::ForStatement { init: Some(init), test: Some(test), update: Some(update), body },
        0,
        37,
    );
    let program = put(&mut ast, NodeKind::Program { body: vec![for_statement] }, 0, 37);
    let spans = ArgumentCollector::collect(&ast, program);
    let mut found: Vec<u32> = spans.into_iter().collect();
    found.sort();
    assert_eq!(found, vec![13, 19, 34]);
}

#[test]
fn finds_nothing_in_a_program_without_calls() {
    let mut ast = Ast::new();
    let a = name(&mut ast, "a", 0);
    let statement = put(&mut ast, NodeKind::ExpressionStatement { expression: a }, 0, 2);
    let program = put(&mut ast, NodeKind::Program { body: vec![statement] }, 0, 2);
    assert!(ArgumentCollector::collect(&ast, program).is_empty());
}

#[test]
fn argument_position_under_a_call() {
    // f(a, b + c)
    let mut ast = Ast::new();
    let f = name(&mut ast, "f", 0);
    let a = name(&mut ast, "a", 2);
    let b = name(&mut ast, "b", 5);
    let c = name(&mut ast, "c", 9);
    let sum = put(
        &mut ast,
        NodeKind::BinaryExpression { operator: oxc_formatter::operator::BinaryOperator::Addition, left: b, right: c },
        5,
        10,
    );
    let call = put(&mut ast, NodeKind::CallExpression { callee: f, arguments: vec![a, sum], optional: false }, 0, 11);
    assert!(is_node_argument(&ast, Span::new(2, 3), call));
    assert!(is_node_argument(&ast, Span::new(5, 10), call));
    // a span inside an argument counts too
    assert!(is_expression_used_as_call_argument(&ast, Span::new(9, 10), call));
    // the callee does not
    assert!(!is_node_argument(&ast, Span::new(0, 1), call));
    // nor does a span that no argument covers
    assert!(!is_node_argument(&ast, Span::new(4, 10), call));
    // and nothing is an argument of a binary expression
    assert!(!is_node_argument(&ast, Span::new(5, 6), sum));
}

#[test]
fn argument_position_in_literals_and_templates() {
    // only a call and `new` have arguments
    let mut ast = Ast::new();
    let a = name(&mut ast, "a", 1);
    let array = put(&mut ast, NodeKind::ArrayExpression { elements: vec![a] }, 0, 3);
    assert!(!is_node_argument(&ast, Span::new(1, 2), array));

    let mut ast = Ast::new();
    let key = put(&mut ast, NodeKind::IdentifierName { name: "k".to_string() }, 1, 2);
    let value = name(&mut ast, "v", 4);
    let property = put(&mut ast, NodeKind::ObjectProperty { key, value }, 1, 5);
    let rest = name(&mut ast, "r", 10);
    let spread = put(&mut ast, NodeKind::SpreadElement { argument: rest }, 7, 11);
    let object = put(&mut ast, NodeKind::ObjectExpression { properties: vec![property, spread] }, 0, 12);
    assert!(!is_node_argument(&ast, Span::new(4, 5), object));
    assert!(!is_node_argument(&ast, Span::new(1, 2), object));
    assert!(!is_node_argument(&ast, Span::new(10, 11), object));

    let mut ast = Ast::new();
    let tag = name(&mut ast, "t", 0);
    let x = name(&mut ast, "x", 4);
    let quasi = put(&mut ast, NodeKind::TemplateLiteral { expressions: vec![x] }, 1, 7);
    let tagged = put(&mut ast, NodeKind::TaggedTemplateExpression { tag, quasi }, 0, 7);
    assert!(!is_node_argument(&ast, Span::new(4, 5), tagged));
    assert!(!is_node_argument(&ast, Span::new(4, 5), quasi));
    assert!(!is_node_argument(&ast, Span::new(0, 1), tagged));

    // f(a) and new F(a): the argument, not the callee
    let mut ast = Ast::new();
    let f = name(&mut ast, "f", 0);
    let a = name(&mut ast, "a", 2);
    let call = put(&mut ast, NodeKind::CallExpression { callee: f, arguments: vec![a], optional: false }, 0, 4);
    assert!(is_node_argument(&ast, Span::new(2, 3), call));
    assert!(!is_node_argument(&ast, Span::new(0, 1), call));
    let mut ast = Ast::new();
    let f = name(&mut ast, "F", 4);
    let a = name(&mut ast, "a", 6);
    let new = put(&mut ast, NodeKind::NewExpression { callee: f, arguments: vec![a] }, 0, 8);
    assert!(is_node_argument(&ast, Span::new(6, 7), new));
    assert!(!is_node_argument(&ast, Span::new(4, 5), new));
}

#[test]
fn long_curried_call() {
    // connect(a, b, c)(d)
    let mut ast = Ast::new();
    let connect = name(&mut ast, "connect", 0);
    let a = name(&mut ast, "a", 8);
    let b = name(&mut ast, "b", 11);
    let c = name(&mut ast, "c", 14);
    let inner = put(&mut ast, NodeKind::CallExpression { callee: connect, arguments: vec![a, b, c], optional: false }, 0, 16);
    let d = name(&mut ast, "d", 17);
    let outer = put(&mut ast, NodeKind::CallExpression { callee: inner, arguments: vec![d], optional: false }, 0, 19);
    assert!(is_long_curried_call(&ast, inner));
    assert!(!is_long_curried_call(&ast, outer));

    // f(a)(b, c) and f(a)()
    let mut ast = Ast::new();
    let f = name(&mut ast, "f", 0);
    let a = name(&mut ast, "a", 2);
    let inner = put(&mut ast, NodeKind::CallExpression { callee: f, arguments: vec![a], optional: false }, 0, 4);
    let b = name(&mut ast, "b", 5);
    let c = name(&mut ast, "c", 8);
    put(&mut ast, NodeKind::CallExpression { callee: inner, arguments: vec![b, c], optional: false }, 0, 10);
    assert!(!is_long_curried_call(&ast, inner));

    let mut ast = Ast::new();
    let f = name(&mut ast, "f", 0);
    let a = name(&mut ast, "a", 2);
    let inner = put(&mut ast, NodeKind::CallExpression { callee: f, arguments: vec![a], optional: false }, 0, 4);
    put(&mut ast, NodeKind::CallExpression { callee: inner, arguments: vec![], optional: false }, 0, 6);
    assert!(!is_long_curried_call(&ast, inner));

    // f(g(a, b)): the inner call is an argument of the outer one, not its callee
    let mut ast = Ast::new();
    let f = name(&mut ast, "f", 0);
    let g = name(&mut ast, "g", 2);
    let a = name(&mut ast, "a", 4);
    let b = name(&mut ast, "b", 7);
    let inner = put(&mut ast, NodeKind::CallExpression { callee: g, arguments: vec![a, b], optional: false }, 2, 9);
    let outer = put(&mut ast, NodeKind::CallExpression { callee: f, arguments: vec![inner], optional: false }, 0, 10);
    assert!(!is_long_curried_call(&ast, inner));
    assert!(!is_long_curried_call(&ast, outer));
}

#[test]
fn arena_refuses_broken_trees() {
    let mut ast = Ast::new();
    let a = name(&mut ast, "a", 0);
    assert_eq!(ast.len(), 1);
    assert_eq!(ast.parent(a), None);
    // a child that the arena does not hold
    let unknown = ast.add(NodeKind::ExpressionStatement { expression: 7 }, Span::new(0, 1));
    assert_eq!(unknown, Err(InvariantViolation::UnknownChild { span: Span::new(0, 1) }));
    // a child that reaches outside its parent
    let outside = ast.add(NodeKind::ExpressionStatement { expression: a }, Span::new(5, 9));
    assert_eq!(outside, Err(InvariantViolation::SpanContainment { span: Span::new(5, 9) }));
    assert_eq!(ast.len(), 1);
    assert_eq!(ast.parent(a), None);
    let statement = put(&mut ast, NodeKind::ExpressionStatement { expression: a }, 0, 2);
    assert_eq!(ast.parent(a), Some(statement));
    // a child that has a parent already
    let again = ast.add(NodeKind::Program { body: vec![a] }, Span::new(0, 2));
    assert_eq!(again, Err(InvariantViolation::ChildHasParent { span: Span::new(0, 2) }));
    assert_eq!(ast.len(), 2);
    assert!(ast.fits_source(2));
    assert!(!ast.fits_source(1));
    assert!(Span::new(0, 2).contains_inclusive(Span::new(0, 1)));
    assert!(!Span::new(0, 2).contains_inclusive(Span::new(1, 3)));
}
