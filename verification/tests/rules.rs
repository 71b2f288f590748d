use oxc_formatter::ast::{Ast, NodeId, NodeKind, ScopeOwnerKind};
use oxc_formatter::declaration::{
    report_signature_property_key, transform_declaration, transform_ts_module_declaration,
    transform_variable_declaration, transform_variable_declarator, visit_ts_method_signature,
    DeclarationFacts, DeclaratorFacts, DeclaratorPlan, EmittedType, InitializerFacts, KeptInitializer,
    MethodSignatureKind, ModuleBody, ModulePlan, ReturnTypeFault, SignatureKey,
};
use oxc_formatter::lint::eqeqeq::{
    are_literals_and_same_type, eqeqeq_diagnostic, is_null_check, is_type_of_binary,
    to_strict_eq_operator_str, CompareType, Eqeqeq, NullType,
};
use oxc_formatter::lint::no_conditional_expect::{
    check_parents, function_used_in_jest_tests, is_expect_in_jest_function_context,
    is_in_finally_block_simple, is_top_level_function, no_conditional_expect_diagnostic,
    NoConditionalExpect,
};
use oxc_formatter::lint::no_extraneous_dependencies::{
    no_extraneous_dependencies_diagnostic, NoExtraneousDependencies,
};
use oxc_formatter::lint::regex::{is_regexp_callee, parse_regex, run_on_regex_node, RegexSource};
use oxc_formatter::operator::{BinaryOperator, LogicalOperator, UnaryOperator};
use oxc_formatter::scopes_collector::{opens_scope, ChildScopeCollector};
use oxc_formatter::span::Span;
use oxc_formatter::text::{find, find_line_comment, is_white_space, line_end, stands_at, str_equals, white_space_at};

fn put(ast: &mut Ast, kind: NodeKind, start: u32, end: u32) -> NodeId {
    ast.add(kind, Span::new(start, end)).expect("a well-formed node")
}

fn name(ast: &mut Ast, text: &str, start: u32) -> NodeId {
    put(ast, NodeKind::Identifier { name: text.to_string() }, start, start + text.len() as u32)
}

fn call(ast: &mut Ast, callee: NodeId, arguments: Vec<NodeId>, start: u32, end: u32) -> NodeId {
    put(ast, NodeKind::CallExpression { callee, arguments, optional: false }, start, end)
}

#[test]
fn compare_type_from_words() {
    assert_eq!(CompareType::from("smart"), CompareType::Smart);
    assert_eq!(CompareType::from("always"), CompareType::Always);
    assert_eq!(CompareType::from(""), CompareType::Always);
    assert_eq!(CompareType::from("Smart"), CompareType::Always);
    assert_eq!(CompareType::from("smart "), CompareType::Always);
    assert_eq!(CompareType::default(), CompareType::Always);
    assert_eq!(NullType::default(), NullType::Always);
    assert_eq!(
        Eqeqeq::default(),
        Eqeqeq { compare_type: CompareType::default(), null_type: NullType::default() }
    );
}

#[test]
fn null_type_from_words() {
    assert_eq!(NullType::from("always"), NullType::Always);
    assert_eq!(NullType::from("never"), NullType::Never);
    assert_eq!(NullType::from("ignore"), NullType::Ignore);
    assert_eq!(NullType::from("anything"), NullType::Ignore);
    assert_eq!(NullType::from(""), NullType::Ignore);
}

#[test]
fn eqeqeq_parts() {
    assert_eq!(to_strict_eq_operator_str(BinaryOperator::Equality), ("===", " === "));
    assert_eq!(to_strict_eq_operator_str(BinaryOperator::Inequality), ("!==", " !== "));
    let unary = |operator| NodeKind::UnaryExpression { operator, argument: 0 };
    assert!(is_type_of_binary(&unary(UnaryOperator::Typeof), &NodeKind::StringLiteral));
    assert!(is_type_of_binary(&NodeKind::StringLiteral, &unary(UnaryOperator::Typeof)));
    assert!(!is_type_of_binary(&NodeKind::StringLiteral, &unary(UnaryOperator::LogicalNot)));
    // where the left operand is a unary expression, it alone decides
    assert!(!is_type_of_binary(&unary(UnaryOperator::LogicalNot), &unary(UnaryOperator::Typeof)));
    assert!(are_literals_and_same_type(&NodeKind::NumericLiteral, &NodeKind::NumericLiteral));
    assert!(are_literals_and_same_type(
        &NodeKind::TemplateLiteral { expressions: vec![] },
        &NodeKind::TemplateLiteral { expressions: vec![] }
    ));
    assert!(!are_literals_and_same_type(&NodeKind::NumericLiteral, &NodeKind::StringLiteral));
    assert!(!are_literals_and_same_type(&NodeKind::ThisExpression, &NodeKind::ThisExpression));
    assert!(is_null_check(&NodeKind::NullLiteral, &NodeKind::ThisExpression));
    assert!(is_null_check(&NodeKind::ThisExpression, &NodeKind::NullLiteral));
    assert!(!is_null_check(&NodeKind::ThisExpression, &NodeKind::ThisExpression));
    let diagnostic = eqeqeq_diagnostic("==", "===", Span::new(1, 3));
    assert_eq!(diagnostic.message, "Expected === and instead saw ==");
    assert_eq!(diagnostic.help, "Prefer === operator");
    assert_eq!(diagnostic.label, Span::new(1, 3));
}

#[test]
fn eqeqeq_on_a_hand_built_tree() {
    // a==b, where the operator is looked for between the operands
    let mut ast = Ast::new();
    let a = name(&mut ast, "a", 0);
    let b = name(&mut ast, "b", 3);
    let node = put(&mut ast, NodeKind::BinaryExpression { operator: BinaryOperator::Equality, left: a, right: b }, 0, 4);
    let rule = Eqeqeq::default();
    let report = rule.run(&ast, node, b"a==b").unwrap();
    assert_eq!(report.diagnostic.label, Span::new(1, 3));
    // the operator is not in the text between the operands
    let report = rule.run(&ast, node, b"a  b").unwrap();
    assert_eq!(report.diagnostic.label, Span::new(1, 3));
    // nodes that are no binary expression are passed over
    assert_eq!(rule.run(&ast, a, b"a==b"), None);
    // strict comparisons too
    let mut ast = Ast::new();
    let a = name(&mut ast, "a", 0);
    let b = name(&mut ast, "b", 6);
    let node = put(&mut ast, NodeKind::BinaryExpression { operator: BinaryOperator::StrictEquality, left: a, right: b }, 0, 7);
    assert_eq!(rule.run(&ast, node, b"a === b"), None);
}

#[test]
fn diagnostics_of_the_other_rules() {
    let diagnostic = no_conditional_expect_diagnostic(Span::new(2, 8));
    assert_eq!(diagnostic.message, "Unexpected conditional expect");
    assert_eq!(diagnostic.help, "Avoid calling `expect` conditionally");
    assert_eq!(diagnostic.label, Span::new(2, 8));
    let diagnostic = no_extraneous_dependencies_diagnostic(Span::new(0, 1));
    assert_eq!(diagnostic.message, "Should be an imperative statement about what is wrong");
    assert_eq!(
        diagnostic.help,
        "Should be a command-like statement that tells the user how to fix the issue"
    );
    let mut ast = Ast::new();
    let a = name(&mut ast, "a", 0);
    assert_eq!(NoExtraneousDependencies.run(&ast, a), None);
}

/// `it('foo', () => { <statement> })` where the statement holds
/// `expect(1)`, wrapped in an `if` where `conditional` says so. Gives the
/// arena, the flags of test calls, and the call of `expect`.
fn test_with_expect(conditional: bool) -> (Ast, Vec<bool>, NodeId) {
    let mut ast = Ast::new();
    let it = name(&mut ast, "it", 0);
    let title = put(&mut ast, NodeKind::StringLiteral, 3, 8);
    let expect = name(&mut ast, "expect", 30);
    let one = put(&mut ast, NodeKind::NumericLiteral, 37, 38);
    let assertion = call(&mut ast, expect, vec![one], 30, 39);
    let statement = put(&mut ast, NodeKind::ExpressionStatement { expression: assertion }, 30, 40);
    let inner = if conditional {
        let flag = name(&mut ast, "flag", 24);
        put(&mut ast, NodeKind::IfStatement { test: flag, consequent: statement, alternate: None }, 20, 40)
    } else {
        statement
    };
    let body = put(&mut ast, NodeKind::FunctionBody { statements: vec![inner] }, 16, 42);
    let arrow = put(&mut ast, NodeKind::ArrowFunctionExpression { expression: false, params: vec![], body }, 10, 42);
    let test = call(&mut ast, it, vec![title, arrow], 0, 43);
    let outer = put(&mut ast, NodeKind::ExpressionStatement { expression: test }, 0, 44);
    put(&mut ast, NodeKind::Program { body: vec![outer] }, 0, 44);
    let mut test_calls = vec![false; ast.len()];
    test_calls[test] = true;
    (ast, test_calls, assertion)
}

#[test]
fn expect_in_a_branch_of_a_test_is_reported() {
    let (ast, test_calls, assertion) = test_with_expect(true);
    assert_eq!(check_parents(&ast, &test_calls, assertion, false, false), (true, true));
    let head = Span::new(30, 36);
    let report = NoConditionalExpect.run_on_jest_node(&ast, &test_calls, assertion, Some(head));
    assert_eq!(report.map(|diagnostic| diagnostic.label), Some(head));
}

#[test]
fn expect_straight_in_a_test_is_not_reported() {
    let (ast, test_calls, assertion) = test_with_expect(false);
    assert_eq!(check_parents(&ast, &test_calls, assertion, false, false), (false, true));
    let report = NoConditionalExpect.run_on_jest_node(&ast, &test_calls, assertion, Some(Span::new(30, 36)));
    assert_eq!(report, None);
    // outside any test the walk ends at the program
    let none = vec![false; ast.len()];
    assert_eq!(check_parents(&ast, &none, assertion, false, false), (false, false));
    // a node that is no call is passed over
    assert_eq!(NoConditionalExpect.run_on_jest_node(&ast, &test_calls, 0, None), None);
}

#[test]
fn callback_of_catch_is_conditional() {
    // it('x', () => promise.catch(e => expect(e)))
    let mut ast = Ast::new();
    let it = name(&mut ast, "it", 0);
    let promise = name(&mut ast, "promise", 10);
    let catch = put(&mut ast, NodeKind::IdentifierName { name: "catch".to_string() }, 18, 23);
    let member = put(&mut ast, NodeKind::StaticMemberExpression { object: promise, property: catch, optional: false }, 10, 23);
    let expect = name(&mut ast, "expect", 29);
    let e = name(&mut ast, "e", 36);
    let assertion = call(&mut ast, expect, vec![e], 29, 38);
    let statement = put(&mut ast, NodeKind::ExpressionStatement { expression: assertion }, 29, 38);
    let body = put(&mut ast, NodeKind::FunctionBody { statements: vec![statement] }, 29, 38);
    let callback = put(&mut ast, NodeKind::ArrowFunctionExpression { expression: true, params: vec![], body }, 24, 38);
    let caught = call(&mut ast, member, vec![callback], 10, 39);
    let statement = put(&mut ast, NodeKind::ExpressionStatement { expression: caught }, 10, 39);
    let body = put(&mut ast, NodeKind::FunctionBody { statements: vec![statement] }, 10, 39);
    let arrow = put(&mut ast, NodeKind::ArrowFunctionExpression { expression: true, params: vec![], body }, 4, 39);
    let test = call(&mut ast, it, vec![arrow], 0, 40);
    let mut test_calls = vec![false; ast.len()];
    test_calls[test] = true;
    assert_eq!(check_parents(&ast, &test_calls, assertion, false, false), (true, true));
    assert_eq!(check_parents(&ast, &test_calls, caught, false, false), (false, true));
}

/// `function helper() { try { } finally { if (x) expect(1); } }` followed by
/// `it('x', helper)` or `it('x', other)`.
fn helper_used_by_test(handed_over: &str, with_finally: bool) -> (Ast, Vec<bool>, NodeId, NodeId) {
    let mut ast = Ast::new();
    let helper = put(&mut ast, NodeKind::BindingIdentifier { name: "helper".to_string() }, 9, 15);
    let x = name(&mut ast, "x", 40);
    let expect = name(&mut ast, "expect", 43);
    let one = put(&mut ast, NodeKind::NumericLiteral, 50, 51);
    let assertion = call(&mut ast, expect, vec![one], 43, 52);
    let statement = put(&mut ast, NodeKind::ExpressionStatement { expression: assertion }, 43, 53);
    let branch = put(&mut ast, NodeKind::IfStatement { test: x, consequent: statement, alternate: None }, 36, 53);
    let block = put(&mut ast, NodeKind::BlockStatement { body: vec![] }, 24, 27);
    let finalizer = put(&mut ast, NodeKind::BlockStatement { body: vec![branch] }, 34, 55);
    let inner = if with_finally {
        put(&mut ast, NodeKind::TryStatement { block, handler: None, finalizer: Some(finalizer) }, 20, 55)
    } else {
        finalizer
    };
    let body = put(&mut ast, NodeKind::FunctionBody { statements: vec![inner] }, 18, 57);
    let function = put(
        &mut ast,
        NodeKind::Function { is_expression: false, id: Some(helper), params: vec![], body: Some(body) },
        0,
        57,
    );
    let it = name(&mut ast, "it", 58);
    let title = put(&mut ast, NodeKind::StringLiteral, 61, 64);
    let argument = name(&mut ast, handed_over, 66);
    let test = call(&mut ast, it, vec![title, argument], 58, 73);
    let outer = put(&mut ast, NodeKind::ExpressionStatement { expression: test }, 58, 74);
    put(&mut ast, NodeKind::Program { body: vec![function, outer] }, 0, 74);
    let mut test_calls = vec![false; ast.len()];
    test_calls[test] = true;
    (ast, test_calls, assertion, function)
}

#[test]
fn expect_in_a_helper_that_a_test_uses() {
    let (ast, test_calls, assertion, function) = helper_used_by_test("helper", false);
    assert!(is_top_level_function(&ast, function));
    assert!(function_used_in_jest_tests(&ast, &test_calls, function));
    assert!(is_expect_in_jest_function_context(&ast, &test_calls, assertion));
    assert!(!is_in_finally_block_simple(&ast, assertion));
    let report = NoConditionalExpect.run_on_jest_node(&ast, &test_calls, assertion, None);
    assert_eq!(report.map(|diagnostic| diagnostic.label), Some(Span::new(43, 49)));

    let (ast, test_calls, assertion, function) = helper_used_by_test("other", false);
    assert!(!function_used_in_jest_tests(&ast, &test_calls, function));
    assert!(!is_expect_in_jest_function_context(&ast, &test_calls, assertion));
    assert_eq!(NoConditionalExpect.run_on_jest_node(&ast, &test_calls, assertion, None), None);

    // the same name handed to a call that is no test
    let (ast, _, assertion, function) = helper_used_by_test("helper", false);
    let none = vec![false; ast.len()];
    assert!(!function_used_in_jest_tests(&ast, &none, function));
    assert_eq!(NoConditionalExpect.run_on_jest_node(&ast, &none, assertion, None), None);
}

#[test]
fn expect_under_a_finally_block_is_let_through() {
    let (ast, test_calls, assertion, _) = helper_used_by_test("helper", true);
    assert!(is_in_finally_block_simple(&ast, assertion));
    assert_eq!(NoConditionalExpect.run_on_jest_node(&ast, &test_calls, assertion, None), None);
}

#[test]
fn regular_expressions_are_found() {
    // /a/; new RegExp("b", "g"); RegExp("c"); globalThis.RegExp("d"); RegExp(e); Other("f")
    let mut ast = Ast::new();
    let literal = put(&mut ast, NodeKind::RegExpLiteral, 0, 3);
    let reg_exp = name(&mut ast, "RegExp", 9);
    let b = put(&mut ast, NodeKind::StringLiteral, 16, 19);
    let g = put(&mut ast, NodeKind::StringLiteral, 21, 24);
    let constructed = put(&mut ast, NodeKind::NewExpression { callee: reg_exp, arguments: vec![b, g] }, 5, 25);
    let reg_exp_again = name(&mut ast, "RegExp", 27);
    let c = put(&mut ast, NodeKind::StringLiteral, 34, 37);
    let called = call(&mut ast, reg_exp_again, vec![c], 27, 38);
    let global_this = name(&mut ast, "globalThis", 40);
    let property = put(&mut ast, NodeKind::IdentifierName { name: "RegExp".to_string() }, 51, 57);
    let member = put(&mut ast, NodeKind::StaticMemberExpression { object: global_this, property, optional: false }, 40, 57);
    let d = put(&mut ast, NodeKind::StringLiteral, 58, 61);
    let through_global = call(&mut ast, member, vec![d], 40, 62);
    let reg_exp_third = name(&mut ast, "RegExp", 64);
    let e = name(&mut ast, "e", 71);
    let unknown = call(&mut ast, reg_exp_third, vec![e], 64, 73);
    let other = name(&mut ast, "Other", 75);
    let f = put(&mut ast, NodeKind::StringLiteral, 81, 84);
    let not_regexp = call(&mut ast, other, vec![f], 75, 85);
    let mut globals = vec![false; ast.len()];
    for id in [reg_exp, reg_exp_again, global_this, reg_exp_third, other] {
        globals[id] = true;
    }
    assert_eq!(run_on_regex_node(&ast, &globals, literal), Some(RegexSource::Literal { span: Span::new(0, 3) }));
    assert_eq!(
        run_on_regex_node(&ast, &globals, constructed),
        Some(RegexSource::Constructed { pattern: Span::new(16, 19), flags: Some(Span::new(21, 24)) })
    );
    assert_eq!(
        run_on_regex_node(&ast, &globals, called),
        Some(RegexSource::Constructed { pattern: Span::new(34, 37), flags: None })
    );
    assert_eq!(
        run_on_regex_node(&ast, &globals, through_global),
        Some(RegexSource::Constructed { pattern: Span::new(58, 61), flags: None })
    );
    assert_eq!(run_on_regex_node(&ast, &globals, unknown), None);
    assert_eq!(run_on_regex_node(&ast, &globals, not_regexp), None);
    assert_eq!(run_on_regex_node(&ast, &globals, b), None);
    assert!(is_regexp_callee(&ast, &globals, reg_exp));
    assert!(is_regexp_callee(&ast, &globals, member));
    // a local binding of the same name is no global
    let shadowed = vec![false; ast.len()];
    assert!(!is_regexp_callee(&ast, &shadowed, reg_exp));
    assert_eq!(run_on_regex_node(&ast, &shadowed, called), None);

    let offsets = parse_regex(Span::new(16, 19), Some(Span::new(21, 24)));
    assert_eq!((offsets.pattern_span_offset, offsets.flags_span_offset), (16, 21));
    let offsets = parse_regex(Span::new(34, 37), None);
    assert_eq!((offsets.pattern_span_offset, offsets.flags_span_offset), (34, 0));
}

#[test]
fn declarations_that_are_emitted() {
    let function = |named, value_referenced| DeclarationFacts::Function { named, value_referenced };
    assert!(transform_declaration(function(true, false), false));
    assert!(transform_declaration(function(false, false), false));
    assert!(transform_declaration(function(true, true), true));
    assert!(!transform_declaration(function(true, false), true));
    assert!(!transform_declaration(function(false, true), true));
    assert!(transform_declaration(DeclarationFacts::Variable { declare: false }, true));
    assert!(!transform_declaration(DeclarationFacts::Variable { declare: true }, false));
    assert!(transform_declaration(DeclarationFacts::Class { named: true, referenced: true }, true));
    assert!(!transform_declaration(DeclarationFacts::Class { named: false, referenced: true }, true));
    assert!(!transform_declaration(DeclarationFacts::TypeAlias { referenced: false }, true));
    assert!(transform_declaration(DeclarationFacts::Interface { referenced: true }, true));
    assert!(transform_declaration(DeclarationFacts::Enum { referenced: false }, false));
    assert!(!transform_declaration(DeclarationFacts::Module { identifier: false, value_referenced: true }, true));
    assert!(transform_declaration(DeclarationFacts::Module { identifier: true, value_referenced: true }, true));
    assert!(!transform_declaration(DeclarationFacts::ImportEquals { referenced: false }, true));
    assert!(transform_variable_declaration(false));
    assert!(!transform_variable_declaration(true));
}

#[test]
fn declarators_and_what_is_kept_of_them() {
    let literal = InitializerFacts {
        needs_inference: false,
        is_template_literal: false,
        template_is_plain: false,
        type_is_inferable: true,
        is_function: false,
    };
    let plain = DeclaratorFacts {
        is_destructuring: false,
        name_value_referenced: Some(true),
        has_type_annotation: false,
        is_const: true,
        initializer: Some(literal),
    };
    let emitted = |initializer, binding_type, needs_explicit_type| DeclaratorPlan::Emitted {
        initializer,
        binding_type,
        needs_explicit_type,
    };
    // const a = 1
    assert_eq!(
        transform_variable_declarator(plain, true),
        emitted(KeptInitializer::AsIs, EmittedType::Unchanged, false)
    );
    // let a = 1
    assert_eq!(
        transform_variable_declarator(DeclaratorFacts { is_const: false, ..plain }, true),
        emitted(KeptInitializer::Dropped, EmittedType::Inferred, false)
    );
    // const a = `x`, and const a = `${x}`
    let template = InitializerFacts { is_template_literal: true, template_is_plain: true, ..literal };
    assert_eq!(
        transform_variable_declarator(DeclaratorFacts { initializer: Some(template), ..plain }, true),
        emitted(KeptInitializer::TemplateAsString, EmittedType::Unchanged, false)
    );
    let interpolated = InitializerFacts { template_is_plain: false, ..template };
    assert_eq!(
        transform_variable_declarator(DeclaratorFacts { initializer: Some(interpolated), ..plain }, true),
        emitted(KeptInitializer::Dropped, EmittedType::Unknown, true)
    );
    // const a = f(), where nothing can be read off the call
    let opaque = InitializerFacts { needs_inference: true, type_is_inferable: false, ..literal };
    assert_eq!(
        transform_variable_declarator(DeclaratorFacts { initializer: Some(opaque), ..plain }, true),
        emitted(KeptInitializer::Dropped, EmittedType::Unknown, true)
    );
    // const a = () => {}, where nothing can be read off the function
    let function = InitializerFacts { is_function: true, ..opaque };
    assert_eq!(
        transform_variable_declarator(DeclaratorFacts { initializer: Some(function), ..plain }, true),
        emitted(KeptInitializer::Dropped, EmittedType::Unknown, false)
    );
    // let a
    assert_eq!(
        transform_variable_declarator(DeclaratorFacts { initializer: None, is_const: false, ..plain }, true),
        emitted(KeptInitializer::Dropped, EmittedType::Unknown, true)
    );
    // const a: T = 1
    assert_eq!(
        transform_variable_declarator(DeclaratorFacts { has_type_annotation: true, ..plain }, true),
        emitted(KeptInitializer::Dropped, EmittedType::Unchanged, false)
    );
    // unused, and a pattern
    let unused = DeclaratorFacts { name_value_referenced: Some(false), ..plain };
    assert_eq!(transform_variable_declarator(unused, true), DeclaratorPlan::Omitted);
    assert_ne!(transform_variable_declarator(unused, false), DeclaratorPlan::Omitted);
    let pattern = DeclaratorFacts { is_destructuring: true, name_value_referenced: None, ..plain };
    assert_eq!(transform_variable_declarator(pattern, false), DeclaratorPlan::Omitted);
}

#[test]
fn signatures_and_modules() {
    assert!(!report_signature_property_key(SignatureKey::Other { literal: false }, false));
    assert!(report_signature_property_key(SignatureKey::Other { literal: false }, true));
    assert!(!report_signature_property_key(SignatureKey::Other { literal: true }, true));
    assert!(!report_signature_property_key(SignatureKey::Identifier, true));
    assert!(!report_signature_property_key(SignatureKey::StaticMember { on_identifier: true }, true));
    assert!(report_signature_property_key(SignatureKey::StaticMember { on_identifier: false }, true));
    assert_eq!(visit_ts_method_signature(true, MethodSignatureKind::Method), None);
    assert_eq!(
        visit_ts_method_signature(false, MethodSignatureKind::Method),
        Some(ReturnTypeFault::InferredTypeOfExpression)
    );
    assert_eq!(
        visit_ts_method_signature(false, MethodSignatureKind::Getter),
        Some(ReturnTypeFault::AccessorMustHaveExplicitReturnType)
    );
    assert_eq!(visit_ts_method_signature(false, MethodSignatureKind::Setter), None);
    assert_eq!(transform_ts_module_declaration(true, Some(ModuleBody::Block)), ModulePlan::Copied);
    assert_eq!(transform_ts_module_declaration(false, None), ModulePlan::Copied);
    assert_eq!(transform_ts_module_declaration(false, Some(ModuleBody::Nested)), ModulePlan::AroundNested);
    assert_eq!(transform_ts_module_declaration(false, Some(ModuleBody::Block)), ModulePlan::AroundBlock);
}

#[test]
fn child_scopes_but_no_grandchild_scopes() {
    // { a; { b } } || (() => { { c } })
    let mut ast = Ast::new();
    let a = name(&mut ast, "a", 2);
    let first = put(&mut ast, NodeKind::ExpressionStatement { expression: a }, 2, 4);
    let b = name(&mut ast, "b", 7);
    let statement = put(&mut ast, NodeKind::ExpressionStatement { expression: b }, 7, 8);
    let inner_block = put(&mut ast, NodeKind::BlockStatement { body: vec![statement] }, 5, 10);
    let block = put(&mut ast, NodeKind::BlockStatement { body: vec![first, inner_block] }, 0, 12);
    let c = name(&mut ast, "c", 28);
    let statement = put(&mut ast, NodeKind::ExpressionStatement { expression: c }, 28, 29);
    let deep = put(&mut ast, NodeKind::BlockStatement { body: vec![statement] }, 26, 31);
    let body = put(&mut ast, NodeKind::FunctionBody { statements: vec![deep] }, 24, 33);
    let arrow = put(&mut ast, NodeKind::ArrowFunctionExpression { expression: false, params: vec![], body }, 17, 33);
    let wrapped = put(&mut ast, NodeKind::ExpressionStatement { expression: arrow }, 16, 35);
    let program = put(&mut ast, NodeKind::Program { body: vec![block, wrapped] }, 0, 35);
    let mut scopes = vec![None; ast.len()];
    scopes[program] = Some(0);
    scopes[block] = Some(1);
    scopes[inner_block] = Some(2);
    scopes[arrow] = Some(3);
    scopes[deep] = Some(4);
    let found = |node| {
        let mut collector = ChildScopeCollector::new();
        collector.visit(&ast, &scopes, node);
        collector.scope_ids
    };
    assert_eq!(found(program), vec![1, 3]);
    assert_eq!(found(block), vec![2]);
    assert_eq!(found(arrow), vec![4]);
    assert_eq!(found(inner_block), Vec::<u32>::new());
    assert!(opens_scope(ast.kind(program)));
    assert!(!opens_scope(ast.kind(first)));
    let mut collector = ChildScopeCollector::new();
    collector.add_scope(Some(7));
    collector.add_scope(Some(9));
    assert_eq!(collector.scope_ids, vec![7, 9]);
}

#[test]
fn every_scope_owner_ends_the_search() {
    // class C { static { { } } }  interface I { m(): void }
    let owners = [
        ScopeOwnerKind::StaticBlock,
        ScopeOwnerKind::TSEnumDeclaration,
        ScopeOwnerKind::TSConditionalType,
        ScopeOwnerKind::TSTypeAliasDeclaration,
        ScopeOwnerKind::TSInterfaceDeclaration,
        ScopeOwnerKind::TSMethodSignature,
        ScopeOwnerKind::TSConstructSignatureDeclaration,
        ScopeOwnerKind::TSModuleDeclaration,
        ScopeOwnerKind::TSFunctionType,
        ScopeOwnerKind::TSMappedType,
    ];
    for owner in owners {
        let mut ast = Ast::new();
        let inner = put(&mut ast, NodeKind::BlockStatement { body: vec![] }, 2, 4);
        let scoped = put(&mut ast, NodeKind::ScopeOwner { owner, children: vec![inner] }, 1, 5);
        let holder = put(&mut ast, NodeKind::Other { children: vec![scoped] }, 1, 5);
        let program = put(&mut ast, NodeKind::Program { body: vec![holder] }, 0, 6);
        assert!(opens_scope(ast.kind(scoped)));
        assert!(!opens_scope(ast.kind(holder)));
        let mut scopes = vec![None; ast.len()];
        scopes[inner] = Some(5);
        scopes[scoped] = Some(6);
        scopes[program] = Some(7);
        let mut collector = ChildScopeCollector::new();
        collector.visit(&ast, &scopes, program);
        // the scope of the owner, and not the block inside it
        assert_eq!(collector.scope_ids, vec![6]);
        let mut collector = ChildScopeCollector::new();
        collector.visit(&ast, &scopes, scoped);
        assert_eq!(collector.scope_ids, vec![5]);
    }
}

#[test]
fn scanning_source_text() {
    let source = "ab // x\ncd";
    assert_eq!(line_end(source.as_bytes(), 0), 7);
    assert_eq!(line_end(source.as_bytes(), 7), 7);
    assert_eq!(line_end(source.as_bytes(), 8), 10);
    assert_eq!(line_end(source.as_bytes(), 10), 10);
    assert_eq!(find_line_comment(source.as_bytes(), 0, 7), Some(3));
    assert_eq!(find_line_comment(source.as_bytes(), 4, 7), None);
    assert_eq!(find_line_comment(source.as_bytes(), 0, 4), None);
    assert_eq!(find_line_comment(b"a / / b", 0, 7), None);
    assert!(is_white_space(b" \t\r", 0, 3));
    assert!(is_white_space(b"x", 0, 0));
    assert!(!is_white_space(b" x ", 0, 3));
    assert!(is_white_space("\u{3000}\u{2028}\u{205f}\u{1680}\u{85}".as_bytes(), 0, 14));
    assert!(!is_white_space("\u{200b}".as_bytes(), 0, 3));
    assert_eq!(white_space_at("\u{a0}".as_bytes(), 0, 2), 2);
    // a character cut off by the end of the range is none
    assert_eq!(white_space_at("\u{a0}".as_bytes(), 0, 1), 0);
    assert_eq!(white_space_at(b"a", 0, 1), 0);
    assert_eq!(find(b"a == b", 1, 5, b"=="), Some(2));
    assert_eq!(find(b"a == b", 3, 6, b"=="), None);
    assert_eq!(find(b"a == b", 1, 3, b"=="), None);
    assert_eq!(find(b"a == b", 1, 4, b"=="), Some(2));
    assert_eq!(find(b"abc", 1, 2, b""), Some(1));
    assert_eq!(find(b"abc", 2, 1, b"b"), None);
    assert_eq!(find(b"abc", 0, 9, b"b"), None);
    assert!(stands_at(b"abc", 1, b"bc"));
    assert!(!stands_at(b"abc", 2, b"bc"));
    assert!(str_equals("let", "let"));
    assert!(!str_equals("let", "le"));
}

#[test]
fn logical_operator_is_conditional_code() {
    // it('x', () => a && expect(1))
    let mut ast = Ast::new();
    let it = name(&mut ast, "it", 0);
    let a = name(&mut ast, "a", 14);
    let expect = name(&mut ast, "expect", 19);
    let one = put(&mut ast, NodeKind::NumericLiteral, 26, 27);
    let assertion = call(&mut ast, expect, vec![one], 19, 28);
    let logical = put(&mut ast, NodeKind::LogicalExpression { operator: LogicalOperator::And, left: a, right: assertion }, 14, 28);
    let statement = put(&mut ast, NodeKind::ExpressionStatement { expression: logical }, 14, 28);
    let body = put(&mut ast, NodeKind::FunctionBody { statements: vec![statement] }, 14, 28);
    let arrow = put(&mut ast, NodeKind::ArrowFunctionExpression { expression: true, params: vec![], body }, 8, 28);
    let test = call(&mut ast, it, vec![arrow], 0, 29);
    let mut test_calls = vec![false; ast.len()];
    test_calls[test] = true;
    let report = NoConditionalExpect.run_on_jest_node(&ast, &test_calls, assertion, Some(Span::new(19, 25)));
    assert!(report.is_some());
}
