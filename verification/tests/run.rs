use oxc_allocator::Allocator;
use oxc_formatter::ast::{Ast, NodeId, NodeKind, VariableDeclarationKind};
use oxc_formatter::comments::{Comment, CommentKind, Comments};
use oxc_formatter::context::{span_key, FormatContext};
use oxc_formatter::document::{sequence, text, FormatElement};
use oxc_formatter::error::InvariantViolation;
use oxc_formatter::options::{FormatOptions, IndentStyle, QuoteStyle, TrailingCommas};
use oxc_formatter::printer::print;
use oxc_formatter::span::Span;
use oxc_formatter::write::as_or_satisfies_expression;
use oxc_formatter::write::variable_declaration;
use oxc_span::SourceType;

fn put(ast: &mut Ast, kind: NodeKind, start: u32, end: u32) -> NodeId {
    ast.add(kind, Span::new(start, end)).expect("a well-formed node")
}

fn name(ast: &mut Ast, text: &str, start: u32) -> NodeId {
    put(ast, NodeKind::Identifier { name: text.to_string() }, start, start + text.len() as u32)
}

fn comment(start: u32, end: u32) -> Comment {
    Comment { span: Span::new(start, end), kind: CommentKind::Line }
}

#[test]
fn default_options() {
    let options = FormatOptions::default();
    assert_eq!(options.indent_style, IndentStyle::Space);
    assert_eq!(options.indent_width, 2);
    assert_eq!(options.line_width, 80);
    assert_eq!(options.quote_style, QuoteStyle::Double);
    assert_eq!(options.trailing_commas, TrailingCommas::All);
}

#[test]
fn comments_are_printed_in_order_and_once() {
    let mut comments = Comments::new(vec![comment(0, 5), comment(10, 15), comment(30, 40)]).unwrap();
    assert_eq!(comments.len(), 3);
    assert_eq!(comments.printed_count(), 0);
    assert_eq!(comments.unprinted_comments().len(), 3);
    assert!(!comments.has_comments_before(4));
    assert!(comments.has_comments_before(5));
    assert_eq!(comments.comments_before(4), 0);
    assert_eq!(comments.comments_before(20), 2);
    assert_eq!(comments.comments_before(100), 3);
    assert_eq!(comments.finish(), Err(InvariantViolation::CommentNotPrinted { span: Span::new(0, 5) }));

    assert_eq!(comments.increment_printed_count(), Ok(()));
    assert_eq!(comments.printed_count(), 1);
    assert_eq!(comments.unprinted_comments(), &[comment(10, 15), comment(30, 40)]);
    assert_eq!(comments.comments_before(20), 1);
    assert!(!comments.has_comments_before(12));
    assert_eq!(comments.get(1), comment(10, 15));
    assert_eq!(comments.finish(), Err(InvariantViolation::CommentNotPrinted { span: Span::new(10, 15) }));

    assert_eq!(comments.increment_printed_count(), Ok(()));
    assert_eq!(comments.increment_printed_count(), Ok(()));
    assert_eq!(comments.finish(), Ok(()));
    assert_eq!(
        comments.increment_printed_count(),
        Err(InvariantViolation::CommentPrintedTwice { span: Span::new(30, 40) })
    );
    assert_eq!(comments.printed_count(), 3);
    assert_eq!(comments.finish(), Ok(()));
}

#[test]
fn trailing_comments_lie_between_a_node_and_the_next_token() {
    let comments = Comments::new(vec![comment(5, 8), comment(9, 12), comment(20, 25)]).unwrap();
    assert_eq!(comments.comments_between(4, 15), 2);
    assert_eq!(comments.comments_between(4, 10), 1);
    assert_eq!(comments.comments_between(6, 15), 0);
    assert_eq!(comments.comments_between(0, 100), 3);
}

#[test]
fn comments_out_of_order_are_refused() {
    let refused = Comments::new(vec![comment(10, 15), comment(0, 5), comment(3, 4)]);
    assert_eq!(refused.err(), Some(InvariantViolation::CommentsOutOfOrder { span: Span::new(0, 5) }));
    assert!(Comments::new(vec![]).is_ok());
    assert!(Comments::new(vec![comment(3, 4), comment(3, 9)]).is_ok());
    let empty = Comments::new(vec![]).unwrap();
    assert_eq!(empty.finish(), Ok(()));
    let mut empty = empty;
    assert_eq!(
        empty.increment_printed_count(),
        Err(InvariantViolation::CommentPrintedTwice { span: Span::new(0, 0) })
    );
}

#[test]
fn context_keeps_what_it_was_made_with() {
    let allocator = Allocator::default();
    let source = "a // note\n";
    let comments = Comments::new(vec![comment(2, 9)]).unwrap();
    let options = FormatOptions { line_width: 100, ..FormatOptions::default() };
    let mut context = FormatContext::new(source, SourceType::mjs(), comments, &allocator, options);
    assert_eq!(context.options().line_width, 100);
    assert_eq!(context.source_text(), source);
    assert_eq!(context.source_type(), SourceType::mjs());
    assert!(std::ptr::eq(context.allocator(), &allocator));
    assert_eq!(context.comments().len(), 1);
    assert_eq!(context.comments().printed_count(), 0);
    assert_eq!(context.increment_printed_count(), Ok(()));
    assert_eq!(context.comments().printed_count(), 1);
    assert!(context.increment_printed_count().is_err());
    assert_eq!(context.comments().printed_count(), 1);
    assert_eq!(context.comments_mut().finish(), Ok(()));
}

#[test]
fn cache_is_written_once_for_each_span() {
    let allocator = Allocator::default();
    let comments = Comments::new(vec![]).unwrap();
    let mut context =
        FormatContext::new("ab", SourceType::mjs(), comments, &allocator, FormatOptions::default());
    let first = Span::new(0, 1);
    let second = Span::new(1, 2);
    assert!(context.get_cached_element(first).is_none());
    assert!(context.cache_element(first, text("a")));
    assert!(context.get_cached_element(second).is_none());
    assert!(!context.cache_element(first, text("other")));
    assert!(context.cache_element(second, text("b")));
    let printed = |element: Option<&FormatElement>| print(element.unwrap(), FormatOptions::default());
    assert_eq!(printed(context.get_cached_element(first)), "a");
    assert_eq!(printed(context.get_cached_element(second)), "b");
    // a span is told from another with the same start or the same end
    assert!(context.get_cached_element(Span::new(0, 2)).is_none());
    assert_ne!(span_key(Span::new(0, 1)), span_key(Span::new(1, 0)));
    assert_eq!(span_key(Span::new(1, 2)), (1 << 32) + 2);
    assert_eq!(span_key(Span::new(u32::MAX, u32::MAX)), u64::MAX);
}

#[test]
fn call_arguments_flag_is_saved_and_restored() {
    let allocator = Allocator::default();
    let comments = Comments::new(vec![]).unwrap();
    let mut context =
        FormatContext::new("", SourceType::mjs(), comments, &allocator, FormatOptions::default());
    assert!(!context.is_in_call_arguments());
    let saved = context.set_in_call_arguments(true);
    assert!(!saved);
    assert!(context.is_in_call_arguments());
    let inner = context.set_in_call_arguments(true);
    assert!(inner);
    context.set_in_call_arguments(inner);
    assert!(context.is_in_call_arguments());
    context.set_in_call_arguments(saved);
    assert!(!context.is_in_call_arguments());
}

fn cast(ast: &mut Ast, start: u32) -> (NodeId, Span) {
    let a = name(ast, "a", start);
    let ty = put(ast, NodeKind::Other { children: vec![] }, start + 5, start + 6);
    let span = Span::new(start, start + 6);
    (put(ast, NodeKind::TSAsExpression { expression: a, type_annotation: ty }, span.start, span.end), span)
}

#[test]
fn cast_is_grouped_where_it_is_callee_argument_or_object() {
    // f(a as T)
    let mut ast = Ast::new();
    let f = name(&mut ast, "f", 0);
    let (argument, span) = cast(&mut ast, 2);
    let call = put(&mut ast, NodeKind::CallExpression { callee: f, arguments: vec![argument], optional: false }, 0, 9);
    assert!(as_or_satisfies_expression::is_callee_or_object_context(&ast, span, Some(call)));
    let document = as_or_satisfies_expression::write(&ast, argument, text("a"), text("T"));
    assert!(matches!(document, FormatElement::Group(_)));
    assert_eq!(print(&document, FormatOptions::default()), "a as T");

    // (a as T)[0] and x[a as T]
    let mut ast = Ast::new();
    let (object, span) = cast(&mut ast, 1);
    let zero = put(&mut ast, NodeKind::NumericLiteral, 9, 10);
    let member = put(&mut ast, NodeKind::ComputedMemberExpression { object, expression: zero, optional: false, static_name: None }, 0, 11);
    assert!(as_or_satisfies_expression::is_callee_or_object_context(&ast, span, Some(member)));
    let mut ast = Ast::new();
    let x = name(&mut ast, "x", 0);
    let (index, span) = cast(&mut ast, 2);
    let member = put(&mut ast, NodeKind::ComputedMemberExpression { object: x, expression: index, optional: false, static_name: None }, 0, 9);
    assert!(!as_or_satisfies_expression::is_callee_or_object_context(&ast, span, Some(member)));

    // a as T;
    let mut ast = Ast::new();
    let (expression, span) = cast(&mut ast, 0);
    let statement = put(&mut ast, NodeKind::ExpressionStatement { expression }, 0, 7);
    assert!(!as_or_satisfies_expression::is_callee_or_object_context(&ast, span, Some(statement)));
    assert!(!as_or_satisfies_expression::is_callee_or_object_context(&ast, span, None));
    let document = as_or_satisfies_expression::write(&ast, expression, text("a"), text("T"));
    assert!(matches!(document, FormatElement::Concat(_)));
    assert_eq!(print(&document, FormatOptions::default()), "a as T");
}

#[test]
fn satisfies_is_written_with_its_own_word() {
    let mut ast = Ast::new();
    let a = name(&mut ast, "a", 0);
    let ty = put(&mut ast, NodeKind::Other { children: vec![] }, 12, 13);
    let node = put(&mut ast, NodeKind::TSSatisfiesExpression { expression: a, type_annotation: ty }, 0, 13);
    let document = as_or_satisfies_expression::write(&ast, node, text("a"), text("T"));
    assert_eq!(print(&document, FormatOptions::default()), "a satisfies T");
    let document =
        as_or_satisfies_expression::format_as_or_satisfies_expression(text("x"), text("Y"), true, "as");
    assert_eq!(print(&document, FormatOptions::default()), "x as Y");
}

/// `let a = 1, b;` with its declaration node and, if `in_loop`, a `for`
/// statement around it.
fn declaration(ast: &mut Ast, initialized: bool, in_loop: bool) -> NodeId {
    let a = put(ast, NodeKind::BindingIdentifier { name: "a".to_string() }, 4, 5);
    let init = if initialized { Some(put(ast, NodeKind::NumericLiteral, 8, 9)) } else { None };
    let first = put(ast, NodeKind::VariableDeclarator { id: a, init }, 4, 9);
    let b = put(ast, NodeKind::BindingIdentifier { name: "b".to_string() }, 11, 12);
    let second = put(ast, NodeKind::VariableDeclarator { id: b, init: None }, 11, 12);
    let node = put(
        ast,
        NodeKind::VariableDeclaration { kind: VariableDeclarationKind::Let, declarations: vec![first, second] },
        0,
        13,
    );
    if in_loop {
        let body = put(ast, NodeKind::BlockStatement { body: vec![] }, 16, 18);
        put(ast, NodeKind::ForStatement { init: Some(node), test: None, update: None, body }, 0, 18);
    }
    node
}

#[test]
fn declarators_break_after_an_initializer() {
    let none = Comments::new(vec![]).unwrap();
    let mut ast = Ast::new();
    let node = declaration(&mut ast, true, false);
    let declarators = variable_declaration::fmt(&ast, node, vec![text("a = 1"), text("b")], &none);
    let document = variable_declaration::write(&ast, node, declarators);
    assert_eq!(print(&document, FormatOptions::default()), "let a = 1,\n  b;");

    let mut ast = Ast::new();
    let node = declaration(&mut ast, false, false);
    let declarators = variable_declaration::fmt(&ast, node, vec![text("a"), text("b")], &none);
    let document = variable_declaration::write(&ast, node, declarators);
    assert_eq!(print(&document, FormatOptions::default()), "let a, b;");
    let declarators = variable_declaration::fmt(&ast, node, vec![text("a"), text("b")], &none);
    let document = variable_declaration::write(&ast, node, declarators);
    assert_eq!(print(&document, FormatOptions { line_width: 6, ..FormatOptions::default() }), "let a,\n  b;");
}

#[test]
fn declaration_in_a_loop_head_has_no_semicolon_and_no_forced_break() {
    let none = Comments::new(vec![]).unwrap();
    let mut ast = Ast::new();
    let node = declaration(&mut ast, true, true);
    assert!(!variable_declaration::needs_semicolon(&ast, node));
    let declarators = variable_declaration::fmt(&ast, node, vec![text("a = 1"), text("b")], &none);
    let document = variable_declaration::write(&ast, node, declarators);
    assert_eq!(print(&document, FormatOptions::default()), "let a = 1, b");
}

#[test]
fn semicolon_by_parent() {
    let mut ast = Ast::new();
    let node = declaration(&mut ast, true, false);
    assert!(variable_declaration::needs_semicolon(&ast, node));
    put(&mut ast, NodeKind::ExportNamedDeclaration { declaration: Some(node) }, 0, 13);
    assert!(!variable_declaration::needs_semicolon(&ast, node));

    // for (x in y) let a = 1, b; -- the declaration is the body, not the head
    let mut ast = Ast::new();
    let node = declaration(&mut ast, true, false);
    let x = name(&mut ast, "x", 20);
    let y = name(&mut ast, "y", 25);
    put(&mut ast, NodeKind::ForInStatement { left: x, right: y, body: node }, 0, 30);
    assert!(variable_declaration::needs_semicolon(&ast, node));

    let mut ast = Ast::new();
    let node = declaration(&mut ast, true, false);
    let y = name(&mut ast, "y", 25);
    let body = put(&mut ast, NodeKind::BlockStatement { body: vec![] }, 27, 29);
    put(&mut ast, NodeKind::ForOfStatement { is_await: false, left: node, right: y, body }, 0, 30);
    assert!(!variable_declaration::needs_semicolon(&ast, node));
}

#[test]
fn single_declarator_stands_alone_unless_a_comment_is_due() {
    let mut ast = Ast::new();
    let a = put(&mut ast, NodeKind::BindingIdentifier { name: "a".to_string() }, 10, 11);
    let only = put(&mut ast, NodeKind::VariableDeclarator { id: a, init: None }, 10, 11);
    let node = put(
        &mut ast,
        NodeKind::VariableDeclaration { kind: VariableDeclarationKind::Const, declarations: vec![only] },
        0,
        12,
    );
    let none = Comments::new(vec![]).unwrap();
    let alone = variable_declaration::fmt(&ast, node, vec![text("a")], &none);
    assert!(matches!(alone, FormatElement::Text(_)));
    let due = Comments::new(vec![comment(6, 9)]).unwrap();
    let indented = variable_declaration::fmt(&ast, node, vec![text("a")], &due);
    assert!(matches!(indented, FormatElement::Indent(_)));
    assert_eq!(print(&sequence(vec![indented]), FormatOptions::default()), "a");
    let later = Comments::new(vec![comment(11, 14)]).unwrap();
    assert!(matches!(variable_declaration::fmt(&ast, node, vec![text("a")], &later), FormatElement::Text(_)));
}

#[test]
fn declaration_keywords() {
    assert_eq!(VariableDeclarationKind::Var.as_str(), "var");
    assert_eq!(VariableDeclarationKind::Let.as_str(), "let");
    assert_eq!(VariableDeclarationKind::Const.as_str(), "const");
    assert_eq!(VariableDeclarationKind::Using.as_str(), "using");
    assert_eq!(VariableDeclarationKind::AwaitUsing.as_str(), "await using");
    assert!(VariableDeclarationKind::AwaitUsing.is_await());
    assert!(!VariableDeclarationKind::Using.is_await());
    assert!(VariableDeclarationKind::Const.is_const());
    assert!(!VariableDeclarationKind::Let.is_const());
}

#[test]
fn comments_are_printed_where_they_stood() {
    let source = "// one\n/* two */ a; // three\nb /* four */;";
    let at = |needle: &str| {
        let start = source.find(needle).unwrap() as u32;
        Span::new(start, start + needle.len() as u32)
    };
    let line = |needle: &str| Comment { span: at(needle), kind: CommentKind::Line };
    let block = |needle: &str| Comment { span: at(needle), kind: CommentKind::Block };
    let mut comments =
        Comments::new(vec![line("// one"), block("/* two */"), line("// three"), block("/* four */")]).unwrap();
    let a = at("a;").start;
    let leading = oxc_formatter::trivia::format_leading_comments(&mut comments, source, a).unwrap();
    assert_eq!(comments.printed_count(), 2);
    let document = sequence(vec![leading, text("a;")]);
    assert_eq!(print(&document, FormatOptions::default()), "// one\n/* two */ a;");
    // nothing is due twice
    let again = oxc_formatter::trivia::format_leading_comments(&mut comments, source, a).unwrap();
    assert_eq!(print(&again, FormatOptions::default()), "");
    assert_eq!(comments.printed_count(), 2);

    let b = at("b /*").start;
    let trailing = oxc_formatter::trivia::format_trailing_comments(&mut comments, source, a + 2, b).unwrap();
    assert_eq!(comments.printed_count(), 3);
    let document = sequence(vec![text("a"), trailing, text(";"), hard_break(), text("b")]);
    assert_eq!(print(&document, FormatOptions::default()), "a; // three\nb");

    let end = source.len() as u32;
    let trailing = oxc_formatter::trivia::format_trailing_comments(&mut comments, source, b + 1, end).unwrap();
    assert_eq!(print(&sequence(vec![text("b"), trailing, text(";")]), FormatOptions::default()), "b /* four */;");
    assert_eq!(comments.finish(), Ok(()));
}

fn hard_break() -> FormatElement {
    FormatElement::HardLineBreak
}

#[test]
fn comment_outside_the_text_is_reported() {
    let source = "a // \u{e9}";
    let mut comments = Comments::new(vec![comment(2, 50)]).unwrap();
    let outcome = oxc_formatter::trivia::format_leading_comments(&mut comments, source, 60);
    assert_eq!(outcome.err(), Some(InvariantViolation::SpanContainment { span: Span::new(2, 50) }));
    assert_eq!(comments.printed_count(), 0);
    // a span that splits a character
    let mut comments = Comments::new(vec![comment(2, 6)]).unwrap();
    let outcome = oxc_formatter::trivia::format_trailing_comments(&mut comments, source, 1, 7);
    assert_eq!(outcome.err(), Some(InvariantViolation::SpanContainment { span: Span::new(2, 6) }));
    let mut comments = Comments::new(vec![comment(2, 7)]).unwrap();
    let outcome = oxc_formatter::trivia::format_trailing_comments(&mut comments, source, 1, 7).unwrap();
    assert_eq!(print(&outcome, FormatOptions::default()), " // \u{e9}");
    assert_eq!(oxc_formatter::text::slice(source, 2, 7), Some("// \u{e9}"));
    assert_eq!(oxc_formatter::text::slice(source, 2, 6), None);
    assert_eq!(oxc_formatter::text::slice(source, 6, 7), None);
    assert_eq!(oxc_formatter::text::slice(source, 3, 2), None);
    assert_eq!(oxc_formatter::text::slice(source, 0, 0), Some(""));
}

#[test]
fn run_gives_no_text_while_a_comment_is_left() {
    let document = text("a;");
    let mut comments = Comments::new(vec![comment(3, 9)]).unwrap();
    assert_eq!(
        oxc_formatter::run::finish(&document, &comments, FormatOptions::default()),
        Err(InvariantViolation::CommentNotPrinted { span: Span::new(3, 9) })
    );
    comments.increment_printed_count().unwrap();
    assert_eq!(
        oxc_formatter::run::finish(&document, &comments, FormatOptions::default()),
        Ok("a;".to_string())
    );
}
