use oxc_formatter::ast::{Ast, NodeId, NodeKind};
use oxc_formatter::operator::{BinaryOperator, LogicalOperator, UnaryOperator, UpdateOperator};
use oxc_formatter::parentheses::expression::{
    has_parenthesization_rule, needs_parentheses, operand_needs_parens,
};
use oxc_formatter::operator::BinaryLikeOperator;
use oxc_formatter::span::Span;

fn put(ast: &mut Ast, kind: NodeKind, start: u32, end: u32) -> NodeId {
    ast.add(kind, Span::new(start, end)).expect("a well-formed node")
}

fn name(ast: &mut Ast, text: &str, start: u32) -> NodeId {
    let end = start + text.len() as u32;
    put(ast, NodeKind::Identifier { name: text.to_string() }, start, end)
}

fn binary(ast: &mut Ast, operator: BinaryOperator, left: NodeId, right: NodeId, start: u32, end: u32) -> NodeId {
    put(ast, NodeKind::BinaryExpression { operator, left, right }, start, end)
}

fn statement(ast: &mut Ast, expression: NodeId, start: u32, end: u32) -> NodeId {
    let statement = put(ast, NodeKind::ExpressionStatement { expression }, start, end);
    put(ast, NodeKind::Program { body: vec![statement] }, start, end);
    statement
}

fn check(ast: &Ast, id: NodeId, source: &str) -> bool {
    assert!(ast.fits_source(source.len()));
    needs_parentheses(ast, id, source.as_bytes())
}

#[test]
fn exponent_chain_stays_bare_on_the_right() {
    // a ** b ** c
    let source = "a ** b ** c;";
    let mut ast = Ast::new();
    let a = name(&mut ast, "a", 0);
    let b = name(&mut ast, "b", 5);
    let c = name(&mut ast, "c", 10);
    let inner = binary(&mut ast, BinaryOperator::Exponential, b, c, 5, 11);
    let outer = binary(&mut ast, BinaryOperator::Exponential, a, inner, 0, 11);
    statement(&mut ast, outer, 0, 12);
    assert!(!check(&ast, inner, source));
    assert!(!check(&ast, outer, source));
    assert!(!check(&ast, a, source));
}

#[test]
fn exponent_on_the_left_keeps_its_parentheses() {
    // (a ** b) ** c, with the parentheses dropped by the parser
    let source = "(a ** b) ** c;";
    let mut ast = Ast::new();
    let a = name(&mut ast, "a", 1);
    let b = name(&mut ast, "b", 6);
    let inner = binary(&mut ast, BinaryOperator::Exponential, a, b, 1, 7);
    let c = name(&mut ast, "c", 12);
    let outer = binary(&mut ast, BinaryOperator::Exponential, inner, c, 0, 13);
    statement(&mut ast, outer, 0, 14);
    assert!(check(&ast, inner, source));
    assert!(!check(&ast, outer, source));
}

#[test]
fn remainder_under_addition_is_wrapped() {
    // a % 4 + 4
    let source = "a % 4 + 4;";
    let mut ast = Ast::new();
    let a = name(&mut ast, "a", 0);
    let four = put(&mut ast, NodeKind::NumericLiteral, 4, 5);
    let inner = binary(&mut ast, BinaryOperator::Remainder, a, four, 0, 5);
    let other = put(&mut ast, NodeKind::NumericLiteral, 8, 9);
    let outer = binary(&mut ast, BinaryOperator::Addition, inner, other, 0, 9);
    statement(&mut ast, outer, 0, 10);
    assert!(check(&ast, inner, source));
    assert!(!check(&ast, outer, source));
}

#[test]
fn product_under_shift_is_wrapped() {
    // a * 3 >> 5
    let source = "a * 3 >> 5;";
    let mut ast = Ast::new();
    let a = name(&mut ast, "a", 0);
    let three = put(&mut ast, NodeKind::NumericLiteral, 4, 5);
    let inner = binary(&mut ast, BinaryOperator::Multiplication, a, three, 0, 5);
    let five = put(&mut ast, NodeKind::NumericLiteral, 9, 10);
    let outer = binary(&mut ast, BinaryOperator::ShiftRight, inner, five, 0, 10);
    statement(&mut ast, outer, 0, 11);
    assert!(check(&ast, inner, source));
    assert!(!check(&ast, outer, source));
}

#[test]
fn call_as_callee_of_new_keeps_its_parentheses() {
    // new (a())()
    let source = "new (a())();";
    let mut ast = Ast::new();
    let a = name(&mut ast, "a", 5);
    let call = put(&mut ast, NodeKind::CallExpression { callee: a, arguments: vec![], optional: false }, 5, 8);
    let new = put(&mut ast, NodeKind::NewExpression { callee: call, arguments: vec![] }, 0, 11);
    statement(&mut ast, new, 0, 12);
    assert!(check(&ast, call, source));
    assert!(!check(&ast, new, source));
}

#[test]
fn call_as_argument_of_new_needs_none() {
    // new A(b())
    let source = "new A(b());";
    let mut ast = Ast::new();
    let a = name(&mut ast, "A", 4);
    let b = name(&mut ast, "b", 6);
    let call = put(&mut ast, NodeKind::CallExpression { callee: b, arguments: vec![], optional: false }, 6, 9);
    let new = put(&mut ast, NodeKind::NewExpression { callee: a, arguments: vec![call] }, 0, 10);
    statement(&mut ast, new, 0, 11);
    assert!(!check(&ast, call, source));
}

fn concise_arrow(ast: &mut Ast, body_expression: NodeId, start: u32, body_start: u32, end: u32) -> NodeId {
    let statement = put(ast, NodeKind::ExpressionStatement { expression: body_expression }, body_start, end);
    let body = put(ast, NodeKind::FunctionBody { statements: vec![statement] }, body_start, end);
    put(ast, NodeKind::ArrowFunctionExpression { expression: true, params: vec![], body }, start, end)
}

#[test]
fn object_literal_as_concise_arrow_body_is_wrapped() {
    // () => ({foo: 1})
    let source = "() => ({foo: 1});";
    let mut ast = Ast::new();
    let key = put(&mut ast, NodeKind::IdentifierName { name: "foo".to_string() }, 8, 11);
    let one = put(&mut ast, NodeKind::NumericLiteral, 13, 14);
    let property = put(&mut ast, NodeKind::ObjectProperty { key, value: one }, 8, 14);
    let object = put(&mut ast, NodeKind::ObjectExpression { properties: vec![property] }, 7, 15);
    let arrow = concise_arrow(&mut ast, object, 0, 7, 15);
    statement(&mut ast, arrow, 0, 17);
    assert!(check(&ast, object, source));
    assert!(!check(&ast, arrow, source));
    assert!(!check(&ast, one, source));
}

#[test]
fn block_body_of_arrow_is_unaffected() {
    // () => { return 1; }
    let source = "() => { return 1; };";
    let mut ast = Ast::new();
    let one = put(&mut ast, NodeKind::NumericLiteral, 15, 16);
    let ret = put(&mut ast, NodeKind::ReturnStatement { argument: Some(one) }, 8, 17);
    let body = put(&mut ast, NodeKind::FunctionBody { statements: vec![ret] }, 6, 19);
    let arrow = put(&mut ast, NodeKind::ArrowFunctionExpression { expression: false, params: vec![], body }, 0, 19);
    statement(&mut ast, arrow, 0, 20);
    assert!(!check(&ast, one, source));
    assert!(!check(&ast, arrow, source));
}

#[test]
fn object_literal_as_argument_needs_none() {
    // f({a: 1})
    let source = "f({a: 1});";
    let mut ast = Ast::new();
    let f = name(&mut ast, "f", 0);
    let key = put(&mut ast, NodeKind::IdentifierName { name: "a".to_string() }, 3, 4);
    let one = put(&mut ast, NodeKind::NumericLiteral, 6, 7);
    let property = put(&mut ast, NodeKind::ObjectProperty { key, value: one }, 3, 7);
    let object = put(&mut ast, NodeKind::ObjectExpression { properties: vec![property] }, 2, 8);
    let call = put(&mut ast, NodeKind::CallExpression { callee: f, arguments: vec![object], optional: false }, 0, 9);
    statement(&mut ast, call, 0, 10);
    assert!(!check(&ast, object, source));
}

#[test]
fn object_literal_at_statement_start_is_wrapped() {
    // ({}).x
    let source = "({}).x;";
    let mut ast = Ast::new();
    let object = put(&mut ast, NodeKind::ObjectExpression { properties: vec![] }, 1, 3);
    let x = put(&mut ast, NodeKind::IdentifierName { name: "x".to_string() }, 5, 6);
    let member = put(&mut ast, NodeKind::StaticMemberExpression { object, property: x, optional: false }, 0, 6);
    statement(&mut ast, member, 0, 7);
    assert!(check(&ast, object, source));
}

fn decorated_method(ast: &mut Ast, expression: NodeId, start: u32, end: u32, source: &str) -> NodeId {
    let length = source.len() as u32;
    let decorator = put(ast, NodeKind::Decorator { expression }, start, end);
    let method = put(ast, NodeKind::Other { children: vec![decorator] }, start, length - 2);
    let class = put(
        ast,
        NodeKind::Class { is_expression: false, decorators: vec![], id: None, super_class: None, body: vec![method] },
        0,
        length,
    );
    put(ast, NodeKind::Program { body: vec![class] }, 0, length);
    decorator
}

#[test]
fn computed_member_in_decorator_keeps_its_parentheses() {
    // class C { @(decorators[0]) method() {} }
    let source = "class C { @(decorators[0]) method() {} }";
    let mut ast = Ast::new();
    let decorators = name(&mut ast, "decorators", 12);
    let zero = put(&mut ast, NodeKind::NumericLiteral, 23, 24);
    let member = put(
        &mut ast,
        NodeKind::ComputedMemberExpression { object: decorators, expression: zero, optional: false, static_name: None },
        12,
        25,
    );
    decorated_method(&mut ast, member, 10, 26, source);
    assert!(check(&ast, member, source));
    assert!(!check(&ast, decorators, source));
}

#[test]
fn static_member_in_decorator_needs_none() {
    // class C { @decorators.first method() {} }
    let source = "class C { @decorators.first method() {} }";
    let mut ast = Ast::new();
    let decorators = name(&mut ast, "decorators", 11);
    let first = put(&mut ast, NodeKind::IdentifierName { name: "first".to_string() }, 22, 27);
    let member = put(
        &mut ast,
        NodeKind::StaticMemberExpression { object: decorators, property: first, optional: false },
        11,
        27,
    );
    decorated_method(&mut ast, member, 10, 27, source);
    assert!(!check(&ast, member, source));
    assert!(!check(&ast, decorators, source));
}

#[test]
fn call_in_decorator() {
    // @a.b() needs none, @(a?.b()) and @(a()()) do
    let mut ast = Ast::new();
    let a = name(&mut ast, "a", 1);
    let b = put(&mut ast, NodeKind::IdentifierName { name: "b".to_string() }, 3, 4);
    let member = put(&mut ast, NodeKind::StaticMemberExpression { object: a, property: b, optional: false }, 1, 4);
    let call = put(&mut ast, NodeKind::CallExpression { callee: member, arguments: vec![], optional: false }, 1, 6);
    put(&mut ast, NodeKind::Decorator { expression: call }, 0, 6);
    assert!(!check(&ast, call, "@a.b()"));

    let mut ast = Ast::new();
    let a = name(&mut ast, "a", 2);
    let inner = put(&mut ast, NodeKind::CallExpression { callee: a, arguments: vec![], optional: false }, 2, 5);
    let call = put(&mut ast, NodeKind::CallExpression { callee: inner, arguments: vec![], optional: false }, 2, 7);
    put(&mut ast, NodeKind::Decorator { expression: call }, 0, 8);
    assert!(check(&ast, call, "@(a()())"));

    // @(a[0]()): a call on a computed member keeps its parentheses
    let mut ast = Ast::new();
    let a = name(&mut ast, "a", 2);
    let zero = put(&mut ast, NodeKind::NumericLiteral, 4, 5);
    let member = put(&mut ast, NodeKind::ComputedMemberExpression { object: a, expression: zero, optional: false, static_name: None }, 2, 6);
    let call = put(&mut ast, NodeKind::CallExpression { callee: member, arguments: vec![], optional: false }, 2, 8);
    put(&mut ast, NodeKind::Decorator { expression: call }, 0, 9);
    assert!(check(&ast, call, "@(a[0]())"));
}

#[test]
fn member_access_on_a_call_as_argument_of_new_needs_none() {
    // new Foo(a().b)
    let source = "new Foo(a().b);";
    let mut ast = Ast::new();
    let foo = name(&mut ast, "Foo", 4);
    let a = name(&mut ast, "a", 8);
    let call = put(&mut ast, NodeKind::CallExpression { callee: a, arguments: vec![], optional: false }, 8, 11);
    let b = put(&mut ast, NodeKind::IdentifierName { name: "b".to_string() }, 12, 13);
    let member = put(&mut ast, NodeKind::StaticMemberExpression { object: call, property: b, optional: false }, 8, 13);
    let new = put(&mut ast, NodeKind::NewExpression { callee: foo, arguments: vec![member] }, 0, 14);
    statement(&mut ast, new, 0, 15);
    assert!(!check(&ast, member, source));
    assert!(!check(&ast, call, source));
    assert!(!oxc_formatter::parentheses::expression::static_member_expression_needs_parentheses(&ast, member));
}

#[test]
fn assignment_as_argument_needs_none() {
    // f(a = 1)
    let source = "f(a = 1);";
    let mut ast = Ast::new();
    let f = name(&mut ast, "f", 0);
    let a = name(&mut ast, "a", 2);
    let one = put(&mut ast, NodeKind::NumericLiteral, 6, 7);
    let assignment = put(&mut ast, NodeKind::AssignmentExpression { left: a, right: one }, 2, 7);
    let call = put(&mut ast, NodeKind::CallExpression { callee: f, arguments: vec![assignment], optional: false }, 0, 8);
    statement(&mut ast, call, 0, 9);
    assert!(!check(&ast, assignment, source));
    assert!(!oxc_formatter::parentheses::expression::assignment_expression_needs_parentheses(&ast, assignment));
}

#[test]
fn flat_sums_need_none() {
    // a + b - c
    let source = "a + b - c;";
    let mut ast = Ast::new();
    let a = name(&mut ast, "a", 0);
    let b = name(&mut ast, "b", 4);
    let inner = binary(&mut ast, BinaryOperator::Addition, a, b, 0, 5);
    let c = name(&mut ast, "c", 8);
    let outer = binary(&mut ast, BinaryOperator::Subtraction, inner, c, 0, 9);
    statement(&mut ast, outer, 0, 10);
    assert!(!check(&ast, inner, source));
}

#[test]
fn difference_on_the_right_is_wrapped() {
    // a - (b - c)
    let source = "a - (b - c);";
    let mut ast = Ast::new();
    let a = name(&mut ast, "a", 0);
    let b = name(&mut ast, "b", 5);
    let c = name(&mut ast, "c", 9);
    let inner = binary(&mut ast, BinaryOperator::Subtraction, b, c, 5, 10);
    let outer = binary(&mut ast, BinaryOperator::Subtraction, a, inner, 0, 11);
    statement(&mut ast, outer, 0, 12);
    assert!(check(&ast, inner, source));
}

#[test]
fn operand_rule_by_operators() {
    let b = BinaryLikeOperator::Binary;
    let l = BinaryLikeOperator::Logical;
    // a * b + c: the product binds tighter
    assert!(!operand_needs_parens(b(BinaryOperator::Addition), b(BinaryOperator::Multiplication), false));
    // (a + b) * c
    assert!(operand_needs_parens(b(BinaryOperator::Multiplication), b(BinaryOperator::Addition), false));
    // a * b / c mixes two products
    assert!(operand_needs_parens(b(BinaryOperator::Division), b(BinaryOperator::Multiplication), false));
    assert!(!operand_needs_parens(b(BinaryOperator::Multiplication), b(BinaryOperator::Multiplication), false));
    // a == b == c
    assert!(operand_needs_parens(b(BinaryOperator::Equality), b(BinaryOperator::Equality), false));
    // a << b << c
    assert!(operand_needs_parens(b(BinaryOperator::ShiftLeft), b(BinaryOperator::ShiftLeft), false));
    // a & b | c
    assert!(operand_needs_parens(b(BinaryOperator::BitwiseOR), b(BinaryOperator::BitwiseAnd), false));
    // a && b || c: && binds tighter and is no remainder
    assert!(!operand_needs_parens(l(LogicalOperator::Or), l(LogicalOperator::And), false));
    // (a || b) && c
    assert!(operand_needs_parens(l(LogicalOperator::And), l(LogicalOperator::Or), false));
    // a % b * c
    assert!(operand_needs_parens(b(BinaryOperator::Multiplication), b(BinaryOperator::Remainder), false));
    // a % b - c
    assert!(operand_needs_parens(b(BinaryOperator::Subtraction), b(BinaryOperator::Remainder), false));
    // a % b < c
    assert!(!operand_needs_parens(b(BinaryOperator::LessThan), b(BinaryOperator::Remainder), false));
}

#[test]
fn logical_mix_is_wrapped() {
    // (a && b) || c keeps parentheses, a || b || c does not
    let mut ast = Ast::new();
    let a = name(&mut ast, "a", 1);
    let b = name(&mut ast, "b", 6);
    let inner = put(&mut ast, NodeKind::LogicalExpression { operator: LogicalOperator::And, left: a, right: b }, 1, 7);
    let c = name(&mut ast, "c", 12);
    let outer = put(&mut ast, NodeKind::LogicalExpression { operator: LogicalOperator::Or, left: inner, right: c }, 0, 13);
    statement(&mut ast, outer, 0, 14);
    assert!(check(&ast, inner, "(a && b) || c;"));

    let mut ast = Ast::new();
    let a = name(&mut ast, "a", 0);
    let b = name(&mut ast, "b", 5);
    let inner = put(&mut ast, NodeKind::LogicalExpression { operator: LogicalOperator::Or, left: a, right: b }, 0, 6);
    let c = name(&mut ast, "c", 10);
    let outer = put(&mut ast, NodeKind::LogicalExpression { operator: LogicalOperator::Or, left: inner, right: c }, 0, 11);
    statement(&mut ast, outer, 0, 12);
    assert!(!check(&ast, inner, "a || b || c;"));
}

#[test]
fn unary_and_update_signs() {
    // + ++x and - --x are wrapped, + --x is not, -(-x) is, !(-x) is not
    let mut ast = Ast::new();
    let x = name(&mut ast, "x", 4);
    let update = put(&mut ast, NodeKind::UpdateExpression { operator: UpdateOperator::Increment, prefix: true, argument: x }, 2, 5);
    let unary = put(&mut ast, NodeKind::UnaryExpression { operator: UnaryOperator::UnaryPlus, argument: update }, 0, 5);
    assert!(check(&ast, update, "+ ++x"));
    assert!(!check(&ast, unary, "+ ++x"));

    let mut ast = Ast::new();
    let x = name(&mut ast, "x", 4);
    let update = put(&mut ast, NodeKind::UpdateExpression { operator: UpdateOperator::Decrement, prefix: true, argument: x }, 2, 5);
    put(&mut ast, NodeKind::UnaryExpression { operator: UnaryOperator::UnaryPlus, argument: update }, 0, 5);
    assert!(!check(&ast, update, "+ --x"));

    let mut ast = Ast::new();
    let x = name(&mut ast, "x", 3);
    let inner = put(&mut ast, NodeKind::UnaryExpression { operator: UnaryOperator::UnaryNegation, argument: x }, 2, 4);
    put(&mut ast, NodeKind::UnaryExpression { operator: UnaryOperator::UnaryNegation, argument: inner }, 0, 5);
    assert!(check(&ast, inner, "-(-x)"));

    let mut ast = Ast::new();
    let x = name(&mut ast, "x", 3);
    let inner = put(&mut ast, NodeKind::UnaryExpression { operator: UnaryOperator::UnaryNegation, argument: x }, 2, 4);
    put(&mut ast, NodeKind::UnaryExpression { operator: UnaryOperator::LogicalNot, argument: inner }, 0, 5);
    assert!(!check(&ast, inner, "!(-x)"));
}

#[test]
fn negation_under_instanceof_is_wrapped() {
    // (!foo) instanceof Bar
    let mut ast = Ast::new();
    let foo = name(&mut ast, "foo", 2);
    let not = put(&mut ast, NodeKind::UnaryExpression { operator: UnaryOperator::LogicalNot, argument: foo }, 1, 5);
    let bar = name(&mut ast, "Bar", 18);
    binary(&mut ast, BinaryOperator::Instanceof, not, bar, 0, 21);
    assert!(check(&ast, not, "(!foo) instanceof Bar"));
}

#[test]
fn kinds_without_a_rule_are_listed() {
    assert!(has_parenthesization_rule(&NodeKind::NullLiteral));
    assert!(has_parenthesization_rule(&NodeKind::ThisExpression));
    assert!(!has_parenthesization_rule(&NodeKind::Other { children: vec![] }));
    assert!(!has_parenthesization_rule(&NodeKind::Program { body: vec![] }));
    let mut ast = Ast::new();
    let x = name(&mut ast, "x", 0);
    let other = put(&mut ast, NodeKind::Other { children: vec![x] }, 0, 1);
    put(&mut ast, NodeKind::NewExpression { callee: other, arguments: vec![] }, 0, 1);
    assert!(!check(&ast, other, "x"));
}

#[test]
fn parentheses_are_put_around_the_document() {
    // (a + b) * c
    let source = "(a + b) * c;";
    let mut ast = Ast::new();
    let a = name(&mut ast, "a", 1);
    let b = name(&mut ast, "b", 5);
    let sum = binary(&mut ast, BinaryOperator::Addition, a, b, 1, 6);
    let c = name(&mut ast, "c", 10);
    let product = binary(&mut ast, BinaryOperator::Multiplication, sum, c, 0, 11);
    statement(&mut ast, product, 0, 12);
    let options = oxc_formatter::options::FormatOptions::default();
    let text = oxc_formatter::document::text;
    let wrap = oxc_formatter::parentheses::wrap::format_with_parentheses;
    let inner = wrap(&ast, sum, source.as_bytes(), text("a + b"));
    assert_eq!(oxc_formatter::printer::print(&inner, options), "(a + b)");
    let outer = wrap(&ast, product, source.as_bytes(), text("(a + b) * c"));
    assert_eq!(oxc_formatter::printer::print(&outer, options), "(a + b) * c");
}

#[test]
fn member_access_on_a_call_as_callee_of_new() {
    // new (a().b)() and new a.b()
    let mut ast = Ast::new();
    let a = name(&mut ast, "a", 5);
    let call = put(&mut ast, NodeKind::CallExpression { callee: a, arguments: vec![], optional: false }, 5, 8);
    let b = put(&mut ast, NodeKind::IdentifierName { name: "b".to_string() }, 9, 10);
    let member = put(&mut ast, NodeKind::StaticMemberExpression { object: call, property: b, optional: false }, 5, 10);
    let new = put(&mut ast, NodeKind::NewExpression { callee: member, arguments: vec![] }, 0, 13);
    let member_rule = oxc_formatter::parentheses::expression::member_expression_needs_parentheses;
    assert!(member_rule(&ast, member));
    assert!(check(&ast, member, "new (a().b)()"));
    assert!(!member_rule(&ast, new));

    let mut ast = Ast::new();
    let a = name(&mut ast, "a", 4);
    let b = put(&mut ast, NodeKind::IdentifierName { name: "b".to_string() }, 6, 7);
    let member = put(&mut ast, NodeKind::StaticMemberExpression { object: a, property: b, optional: false }, 4, 7);
    put(&mut ast, NodeKind::NewExpression { callee: member, arguments: vec![] }, 0, 9);
    assert!(!member_rule(&ast, member));
    assert!(!check(&ast, member, "new a.b()"));
}
