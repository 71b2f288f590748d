use oxc_formatter::ast::{Ast, NodeId, NodeKind};
use oxc_formatter::comments::{Comment, CommentKind, Comments};
use oxc_formatter::error::InvariantViolation;
use oxc_formatter::document::{
    group, hard_line_break, indent, soft_line_break, soft_line_break_or_space, sequence, space, text,
    FormatElement,
};
use oxc_formatter::member_chain::{
    chain_members, count_call_groups, layout_member_chain, CallExpressionPosition, ChainMember,
    ChainMemberParts, FormattedLink,
};
use oxc_formatter::options::{FormatOptions, IndentStyle};
use oxc_formatter::printer::print;
use oxc_formatter::span::Span;

fn put(ast: &mut Ast, kind: NodeKind, start: u32, end: u32) -> NodeId {
    ast.add(kind, Span::new(start, end)).expect("a well-formed node")
}

fn width(line_width: u16) -> FormatOptions {
    FormatOptions { line_width, ..FormatOptions::default() }
}

fn empty() -> FormatElement {
    sequence(vec![])
}

/// `object.foo().bar().baz()` with the source offsets of its parts.
fn three_calls(ast: &mut Ast) -> NodeId {
    let object = put(ast, NodeKind::Identifier { name: "object".to_string() }, 0, 6);
    let foo = put(ast, NodeKind::IdentifierName { name: "foo".to_string() }, 7, 10);
    let member = put(ast, NodeKind::StaticMemberExpression { object, property: foo, optional: false }, 0, 10);
    let call = put(ast, NodeKind::CallExpression { callee: member, arguments: vec![], optional: false }, 0, 12);
    let bar = put(ast, NodeKind::IdentifierName { name: "bar".to_string() }, 13, 16);
    let member = put(ast, NodeKind::StaticMemberExpression { object: call, property: bar, optional: false }, 0, 16);
    let call = put(ast, NodeKind::CallExpression { callee: member, arguments: vec![], optional: false }, 0, 18);
    let baz = put(ast, NodeKind::IdentifierName { name: "baz".to_string() }, 19, 22);
    let member = put(ast, NodeKind::StaticMemberExpression { object: call, property: baz, optional: false }, 0, 22);
    put(ast, NodeKind::CallExpression { callee: member, arguments: vec![], optional: false }, 0, 24)
}

fn documents(ast: &Ast, members: &[ChainMember], source: &str) -> Vec<FormattedLink> {
    members
        .iter()
        .map(|member| {
            let inner = match member {
                ChainMember::StaticMember(id) => match ast.kind(*id) {
                    NodeKind::StaticMemberExpression { property, .. } => {
                        let span = ast.span(*property);
                        text(&source[span.start as usize..span.end as usize])
                    }
                    _ => unreachable!(),
                },
                ChainMember::CallExpression { .. } => text("()"),
                ChainMember::Node(id) => {
                    let span = ast.span(*id);
                    text(&source[span.start as usize..span.end as usize])
                }
                _ => empty(),
            };
            let parts = ChainMemberParts { leading_comments: empty(), inner, trailing_comments: empty() };
            FormattedLink {
                member: *member,
                document: member.fmt(ast, parts),
                keep_on_line: member.has_same_line_trailing_comment(ast, source.as_bytes()),
            }
        })
        .collect()
}

#[test]
fn chain_is_listed_from_its_start() {
    let mut ast = Ast::new();
    let root = three_calls(&mut ast);
    let members = chain_members(&ast, root);
    assert_eq!(members.len(), 7);
    assert_eq!(members[0], ChainMember::Node(0));
    assert!(matches!(members[1], ChainMember::StaticMember(_)));
    assert!(matches!(
        members[2],
        ChainMember::CallExpression { position: CallExpressionPosition::Middle, .. }
    ));
    assert!(matches!(
        members[6],
        ChainMember::CallExpression { expression, position: CallExpressionPosition::End } if expression == root
    ));
    assert!(members[2].is_call_expression());
    assert!(!members[1].is_call_expression());
    assert!(!members[1].is_computed_expression());
    assert_eq!(count_call_groups(&ast, &members), 3);
}

#[test]
fn call_on_a_plain_callee_starts_the_chain() {
    // of().test
    let mut ast = Ast::new();
    let of = put(&mut ast, NodeKind::Identifier { name: "of".to_string() }, 0, 2);
    let call = put(&mut ast, NodeKind::CallExpression { callee: of, arguments: vec![], optional: false }, 0, 4);
    let test = put(&mut ast, NodeKind::IdentifierName { name: "test".to_string() }, 5, 9);
    let root = put(&mut ast, NodeKind::StaticMemberExpression { object: call, property: test, optional: false }, 0, 9);
    let members = chain_members(&ast, root);
    assert_eq!(
        members,
        vec![
            ChainMember::CallExpression { expression: call, position: CallExpressionPosition::Start },
            ChainMember::StaticMember(root),
        ]
    );
    assert_eq!(count_call_groups(&ast, &members), 0);
}

#[test]
fn computed_and_non_null_links() {
    // a[0]!.b
    let mut ast = Ast::new();
    let a = put(&mut ast, NodeKind::Identifier { name: "a".to_string() }, 0, 1);
    let zero = put(&mut ast, NodeKind::NumericLiteral, 2, 3);
    let computed = put(&mut ast, NodeKind::ComputedMemberExpression { object: a, expression: zero, optional: false, static_name: None }, 0, 4);
    let non_null = put(&mut ast, NodeKind::TSNonNullExpression { expression: computed }, 0, 5);
    let b = put(&mut ast, NodeKind::IdentifierName { name: "b".to_string() }, 6, 7);
    let root = put(&mut ast, NodeKind::StaticMemberExpression { object: non_null, property: b, optional: false }, 0, 7);
    let members = chain_members(&ast, root);
    assert_eq!(
        members,
        vec![
            ChainMember::Node(a),
            ChainMember::ComputedMember(computed),
            ChainMember::TSNonNullExpression(non_null),
            ChainMember::StaticMember(root),
        ]
    );
    assert!(members[1].is_computed_expression());
}

#[test]
fn long_chain_breaks_one_call_to_a_line() {
    let source = "object.foo().bar().baz()";
    let mut ast = Ast::new();
    let root = three_calls(&mut ast);
    let members = chain_members(&ast, root);
    let document = layout_member_chain(&ast, documents(&ast, &members, source));
    assert_eq!(print(&document, width(20)), "object\n  .foo()\n  .bar()\n  .baz()");
}

#[test]
fn chain_within_the_width_stays_on_one_line() {
    let source = "object.foo().bar().baz()";
    let mut ast = Ast::new();
    let root = three_calls(&mut ast);
    let members = chain_members(&ast, root);
    let document = layout_member_chain(&ast, documents(&ast, &members, source));
    assert_eq!(print(&document, width(80)), source);
    let document = layout_member_chain(&ast, documents(&ast, &members, source));
    assert_eq!(print(&document, width(24)), source);
    let document = layout_member_chain(&ast, documents(&ast, &members, source));
    assert_ne!(print(&document, width(23)), source);
}

#[test]
fn chain_with_two_call_groups_never_breaks() {
    let source = "a.b().c()";
    let mut ast = Ast::new();
    let a = put(&mut ast, NodeKind::Identifier { name: "a".to_string() }, 0, 1);
    let b = put(&mut ast, NodeKind::IdentifierName { name: "b".to_string() }, 2, 3);
    let member = put(&mut ast, NodeKind::StaticMemberExpression { object: a, property: b, optional: false }, 0, 3);
    let call = put(&mut ast, NodeKind::CallExpression { callee: member, arguments: vec![], optional: false }, 0, 5);
    let c = put(&mut ast, NodeKind::IdentifierName { name: "c".to_string() }, 6, 7);
    let member = put(&mut ast, NodeKind::StaticMemberExpression { object: call, property: c, optional: false }, 0, 7);
    let root = put(&mut ast, NodeKind::CallExpression { callee: member, arguments: vec![], optional: false }, 0, 9);
    let members = chain_members(&ast, root);
    assert_eq!(count_call_groups(&ast, &members), 2);
    let document = layout_member_chain(&ast, documents(&ast, &members, source));
    assert_eq!(print(&document, width(4)), source);
}

#[test]
fn trailing_line_comment_is_seen_on_the_same_line_only() {
    let source = "a.b // note\n.c";
    let mut ast = Ast::new();
    let a = put(&mut ast, NodeKind::Identifier { name: "a".to_string() }, 0, 1);
    let b = put(&mut ast, NodeKind::IdentifierName { name: "b".to_string() }, 2, 3);
    let member = put(&mut ast, NodeKind::StaticMemberExpression { object: a, property: b, optional: false }, 0, 3);
    let c = put(&mut ast, NodeKind::IdentifierName { name: "c".to_string() }, 13, 14);
    let outer = put(&mut ast, NodeKind::StaticMemberExpression { object: member, property: c, optional: false }, 0, 14);
    assert!(ast.fits_source(source.len()));
    assert!(ChainMember::StaticMember(member).has_same_line_trailing_comment(&ast, source.as_bytes()));
    assert!(!ChainMember::StaticMember(outer).has_same_line_trailing_comment(&ast, source.as_bytes()));
    assert!(!ChainMember::Node(a).has_same_line_trailing_comment(&ast, source.as_bytes()));

    // no white space before the comment, and text before the comment
    for other in ["a.b// note", "a.b x // note", "a.b\n // note", "a.b /", "a.b"] {
        let mut ast = Ast::new();
        let a = put(&mut ast, NodeKind::Identifier { name: "a".to_string() }, 0, 1);
        let b = put(&mut ast, NodeKind::IdentifierName { name: "b".to_string() }, 2, 3);
        let member = put(&mut ast, NodeKind::StaticMemberExpression { object: a, property: b, optional: false }, 0, 3);
        assert!(
            !ChainMember::StaticMember(member).has_same_line_trailing_comment(&ast, other.as_bytes()),
            "{other}"
        );
    }
    // a no-break space and a tab count as white space
    let mut ast = Ast::new();
    let a = put(&mut ast, NodeKind::Identifier { name: "a".to_string() }, 0, 1);
    let b = put(&mut ast, NodeKind::IdentifierName { name: "b".to_string() }, 2, 3);
    let member = put(&mut ast, NodeKind::StaticMemberExpression { object: a, property: b, optional: false }, 0, 3);
    assert!(ChainMember::StaticMember(member)
        .has_same_line_trailing_comment(&ast, "a.b\u{a0}\t\u{2003}// note".as_bytes()));
}

#[test]
fn optional_links_are_written_with_a_question_mark() {
    let mut ast = Ast::new();
    let a = put(&mut ast, NodeKind::Identifier { name: "a".to_string() }, 0, 1);
    let b = put(&mut ast, NodeKind::IdentifierName { name: "b".to_string() }, 3, 4);
    let member = put(&mut ast, NodeKind::StaticMemberExpression { object: a, property: b, optional: true }, 0, 4);
    let zero = put(&mut ast, NodeKind::NumericLiteral, 7, 8);
    let computed = put(&mut ast, NodeKind::ComputedMemberExpression { object: member, expression: zero, optional: true, static_name: None }, 0, 9);
    let call = put(&mut ast, NodeKind::CallExpression { callee: computed, arguments: vec![], optional: true }, 0, 13);
    let members = chain_members(&ast, call);
    let parts = |inner: &str| ChainMemberParts {
        leading_comments: empty(),
        inner: text(inner),
        trailing_comments: empty(),
    };
    let options = FormatOptions::default();
    assert_eq!(print(&members[1].fmt(&ast, parts("b")), options), "?.b");
    assert_eq!(print(&members[2].fmt(&ast, parts("0")), options), "?.[0]");
    assert_eq!(print(&members[3].fmt(&ast, parts("()")), options), "?.()");
    assert_eq!(print(&ChainMember::TSNonNullExpression(a).fmt(&ast, parts("")), options), "!");
}

#[test]
fn text_is_printed_as_it_is_even_when_too_wide() {
    let document = text("a_very_long_identifier");
    assert_eq!(print(&document, width(4)), "a_very_long_identifier");
}

#[test]
fn group_breaks_all_its_own_soft_breaks_or_none() {
    let list = |width_: u16| {
        let document = group(sequence(vec![
            text("["),
            indent(sequence(vec![
                soft_line_break(),
                text("first,"),
                soft_line_break_or_space(),
                text("second"),
            ])),
            soft_line_break(),
            text("]"),
        ]));
        print(&document, width(width_))
    };
    assert_eq!(list(80), "[first, second]");
    assert_eq!(list(15), "[first, second]");
    assert_eq!(list(14), "[\n  first,\n  second\n]");
}

#[test]
fn inner_group_is_decided_on_its_own() {
    let document = group(sequence(vec![
        text("outer("),
        indent(sequence(vec![
            soft_line_break(),
            group(sequence(vec![text("a,"), soft_line_break_or_space(), text("b")])),
        ])),
        soft_line_break(),
        text(")"),
    ]));
    assert_eq!(print(&document, width(10)), "outer(\n  a, b\n)");
}

#[test]
fn what_follows_a_group_on_its_line_counts() {
    // The group alone fits into 8 columns, but not with the text behind it.
    let build = || {
        sequence(vec![
            group(sequence(vec![text("aaa"), soft_line_break_or_space(), text("bbb")])),
            text("cc"),
            soft_line_break_or_space(),
            text("dddddddd"),
        ])
    };
    assert_eq!(print(&build(), width(8)), "aaa\nbbbcc\ndddddddd");
    assert_eq!(print(&build(), width(9)), "aaa bbbcc\ndddddddd");
}

#[test]
fn hard_line_break_breaks_the_groups_around_it() {
    let document = group(sequence(vec![
        text("a"),
        soft_line_break_or_space(),
        text("b"),
        hard_line_break(),
        text("c"),
    ]));
    assert_eq!(print(&document, width(80)), "a\nb\nc");
}

#[test]
fn indentation_with_tabs_and_spaces() {
    let build = || sequence(vec![text("{"), indent(sequence(vec![hard_line_break(), text("x")])), hard_line_break(), text("}")]);
    assert_eq!(print(&build(), FormatOptions::default()), "{\n  x\n}");
    let four = FormatOptions { indent_width: 4, ..FormatOptions::default() };
    assert_eq!(print(&build(), four), "{\n    x\n}");
    let tabs = FormatOptions { indent_style: IndentStyle::Tab, ..FormatOptions::default() };
    assert_eq!(print(&build(), tabs), "{\n\tx\n}");
}

#[test]
fn line_suffix_waits_for_the_end_of_the_line() {
    let document = sequence(vec![
        text("a"),
        FormatElement::LineSuffix(" // note".to_string()),
        text(";"),
        hard_line_break(),
        text("b"),
        FormatElement::LineSuffix(" // last".to_string()),
    ]);
    assert_eq!(print(&document, width(80)), "a; // note\nb // last");
}

#[test]
fn conditional_group_takes_the_first_alternative_that_fits() {
    let build = || {
        FormatElement::ConditionalGroup(vec![
            text("one line that is long"),
            sequence(vec![text("shorter")]),
            sequence(vec![text("a"), soft_line_break_or_space(), text("b")]),
        ])
    };
    assert_eq!(print(&build(), width(80)), "one line that is long");
    assert_eq!(print(&build(), width(10)), "shorter");
    assert_eq!(print(&build(), width(2)), "a\nb");
    assert_eq!(print(&FormatElement::ConditionalGroup(vec![]), width(2)), "");
}

#[test]
fn space_is_one_column() {
    let document = group(sequence(vec![text("ab"), space(), text("cd"), soft_line_break_or_space(), text("e")]));
    assert_eq!(print(&document, width(7)), "ab cd e");
    let document = group(sequence(vec![text("ab"), space(), text("cd"), soft_line_break_or_space(), text("e")]));
    assert_eq!(print(&document, width(6)), "ab cd\ne");
}

#[test]
fn long_curried_call_is_split_from_the_call_that_follows() {
    // a.b(x, y)(z).c().d() against a.b(x)(y, z).c().d()
    let chain = |first: usize, second: usize| {
        let mut ast = Ast::new();
        let a = put(&mut ast, NodeKind::Identifier { name: "a".to_string() }, 0, 1);
        let b = put(&mut ast, NodeKind::IdentifierName { name: "b".to_string() }, 2, 3);
        let member = put(&mut ast, NodeKind::StaticMemberExpression { object: a, property: b, optional: false }, 0, 3);
        let mut arguments = |ast: &mut Ast, count: usize, from: u32| -> Vec<NodeId> {
            (0..count as u32).map(|k| put(ast, NodeKind::NumericLiteral, from + 2 * k, from + 2 * k + 1)).collect()
        };
        let inner_arguments = arguments(&mut ast, first, 4);
        let inner = put(&mut ast, NodeKind::CallExpression { callee: member, arguments: inner_arguments, optional: false }, 0, 10);
        let outer_arguments = arguments(&mut ast, second, 11);
        let outer = put(&mut ast, NodeKind::CallExpression { callee: inner, arguments: outer_arguments, optional: false }, 0, 17);
        let c = put(&mut ast, NodeKind::IdentifierName { name: "c".to_string() }, 18, 19);
        let member = put(&mut ast, NodeKind::StaticMemberExpression { object: outer, property: c, optional: false }, 0, 19);
        let root = put(&mut ast, NodeKind::CallExpression { callee: member, arguments: vec![], optional: false }, 0, 21);
        let members = chain_members(&ast, root);
        count_call_groups(&ast, &members)
    };
    assert_eq!(chain(2, 1), 3);
    assert_eq!(chain(1, 2), 2);
    assert_eq!(chain(1, 1), 2);
    assert_eq!(chain(2, 0), 2);
}

/// `a.b.c` over `source`, where `b` and `c` stand at the offsets that the
/// text gives them.
fn two_members(ast: &mut Ast, source: &str) -> NodeId {
    let b_at = source.find(".b").unwrap() as u32 + 1;
    let c_at = source.find(".c").unwrap() as u32 + 1;
    let a = put(ast, NodeKind::Identifier { name: "a".to_string() }, 0, 1);
    let b = put(ast, NodeKind::IdentifierName { name: "b".to_string() }, b_at, b_at + 1);
    let first = put(ast, NodeKind::StaticMemberExpression { object: a, property: b, optional: false }, 0, b_at + 1);
    let c = put(ast, NodeKind::IdentifierName { name: "c".to_string() }, c_at, c_at + 1);
    put(ast, NodeKind::StaticMemberExpression { object: first, property: c, optional: true }, 0, c_at + 1)
}

fn comment_at(source: &str, needle: &str, kind: CommentKind) -> Comment {
    let start = source.find(needle).unwrap() as u32;
    Comment { span: Span::new(start, start + needle.len() as u32), kind }
}

#[test]
fn link_is_built_with_its_comments() {
    let source = "a /* l */ .b /* t */\n  // next\n  ?.c // last";
    let mut ast = Ast::new();
    let root = two_members(&mut ast, source);
    assert!(ast.fits_source(source.len()));
    let mut comments = Comments::new(vec![
        comment_at(source, "/* l */", CommentKind::Block),
        comment_at(source, "/* t */", CommentKind::Block),
        comment_at(source, "// next", CommentKind::Line),
        comment_at(source, "// last", CommentKind::Line),
    ])
    .unwrap();
    let members = chain_members(&ast, root);
    assert_eq!(members.len(), 3);
    assert!(!members[0].has_own_comments());
    assert!(members[1].has_own_comments());

    // the start of the chain takes no comment
    let parts = members[0].format_parts(&ast, &mut comments, source, text("a")).unwrap();
    assert_eq!(comments.printed_count(), 0);
    assert_eq!(print(&members[0].fmt(&ast, parts), width(80)), "a");

    // `.b` takes the comment before its property and the one on its line
    assert_eq!(members[1].leading_position(&ast), source.find(".b").unwrap() as u32 + 1);
    let parts = members[1].format_parts(&ast, &mut comments, source, text("b")).unwrap();
    assert_eq!(comments.printed_count(), 2);
    assert_eq!(print(&parts.leading_comments, width(80)), "/* l */ ");
    assert_eq!(print(&parts.inner, width(80)), "b");
    assert_eq!(print(&parts.trailing_comments, width(80)), " /* t */");
    assert_eq!(print(&members[1].fmt(&ast, parts), width(80)), "/* l */ .b /* t */");

    // `?.c` takes the line comment above it and the one behind it
    let parts = members[2].format_parts(&ast, &mut comments, source, text("c")).unwrap();
    assert_eq!(comments.printed_count(), 4);
    assert_eq!(print(&members[2].fmt(&ast, parts), width(80)), "// next\n?.c // last");
    assert_eq!(comments.finish(), Ok(()));

    // nothing is left for a second pass
    let parts = members[1].format_parts(&ast, &mut comments, source, text("b")).unwrap();
    assert_eq!(print(&members[1].fmt(&ast, parts), width(80)), ".b");
    assert_eq!(comments.printed_count(), 4);
}

#[test]
fn call_links_and_their_comments() {
    // a /* x */ .b() /* y */
    let source = "a /* x */ .b() /* y */";
    let mut ast = Ast::new();
    let a = put(&mut ast, NodeKind::Identifier { name: "a".to_string() }, 0, 1);
    let b = put(&mut ast, NodeKind::IdentifierName { name: "b".to_string() }, 11, 12);
    let member = put(&mut ast, NodeKind::StaticMemberExpression { object: a, property: b, optional: false }, 0, 12);
    let call = put(&mut ast, NodeKind::CallExpression { callee: member, arguments: vec![], optional: false }, 0, 14);
    let end = ChainMember::CallExpression { expression: call, position: CallExpressionPosition::End };
    let middle = ChainMember::CallExpression { expression: call, position: CallExpressionPosition::Middle };
    let start = ChainMember::CallExpression { expression: call, position: CallExpressionPosition::Start };
    assert!(!end.has_own_comments());
    assert!(!start.has_own_comments());
    assert!(middle.has_own_comments());
    assert!(!ChainMember::Node(a).has_own_comments());
    assert!(ChainMember::ComputedMember(member).has_own_comments());
    assert!(ChainMember::TSNonNullExpression(member).has_own_comments());
    assert_eq!(middle.leading_position(&ast), 0);

    let table = || {
        Comments::new(vec![
            comment_at(source, "/* x */", CommentKind::Block),
            comment_at(source, "/* y */", CommentKind::Block),
        ])
        .unwrap()
    };
    // a call at the end of its chain leaves the comments alone
    let mut comments = table();
    let parts = end.format_parts(&ast, &mut comments, source, text("()")).unwrap();
    assert_eq!(comments.printed_count(), 0);
    assert_eq!(print(&end.fmt(&ast, parts), width(80)), "()");
    // in the middle it takes those behind it once those before it are printed
    let mut comments = table();
    let parts = middle.format_parts(&ast, &mut comments, source, text("()")).unwrap();
    assert_eq!(comments.printed_count(), 0);
    assert_eq!(print(&middle.fmt(&ast, parts), width(80)), "()");
    comments.increment_printed_count().unwrap();
    let parts = middle.format_parts(&ast, &mut comments, source, text("()")).unwrap();
    assert_eq!(comments.printed_count(), 2);
    assert_eq!(print(&middle.fmt(&ast, parts), width(80)), "() /* y */");
}

#[test]
fn link_reports_the_first_comment_that_cannot_be_printed() {
    // the second comment ends inside the two bytes of `é`
    let source = "a /* x */ /*\u{e9}*/ .b /* t */ .c";
    let mut ast = Ast::new();
    let root = two_members(&mut ast, source);
    assert!(ast.fits_source(source.len()));
    let members = chain_members(&ast, root);
    let good = comment_at(source, "/* x */", CommentKind::Block);
    let cut = source.find("/*\u{e9}").unwrap() as u32;
    let bad = Comment { span: Span::new(cut, cut + 3), kind: CommentKind::Block };
    let trailing = comment_at(source, "/* t */", CommentKind::Block);

    // among the leading comments
    let mut comments = Comments::new(vec![good, bad, trailing]).unwrap();
    let outcome = members[1].format_parts(&ast, &mut comments, source, text("b"));
    assert_eq!(outcome.err(), Some(InvariantViolation::SpanContainment { span: bad.span }));
    assert_eq!(comments.printed_count(), 1);
    assert_eq!(comments.unprinted_comments(), &[bad, trailing]);

    let mut comments = Comments::new(vec![good, bad, trailing]).unwrap();
    let outcome = members[1].format(&ast, &mut comments, source, text("b"));
    assert_eq!(outcome.err(), Some(InvariantViolation::SpanContainment { span: bad.span }));
    assert_eq!(comments.printed_count(), 1);

    // among the trailing comments
    let source = "a /* x */ .b /*\u{e9}*/ /* t */ .c";
    let mut ast = Ast::new();
    let root = two_members(&mut ast, source);
    let members = chain_members(&ast, root);
    let good = comment_at(source, "/* x */", CommentKind::Block);
    let cut = source.find("/*\u{e9}").unwrap() as u32;
    let bad = Comment { span: Span::new(cut, cut + 3), kind: CommentKind::Block };
    let later = comment_at(source, "/* t */", CommentKind::Block);
    let mut comments = Comments::new(vec![good, bad, later]).unwrap();
    let outcome = members[1].format_parts(&ast, &mut comments, source, text("b"));
    assert_eq!(outcome.err(), Some(InvariantViolation::SpanContainment { span: bad.span }));
    assert_eq!(comments.printed_count(), 1);
    assert_eq!(comments.unprinted_comments(), &[bad, later]);
}

#[test]
fn broken_chain_indents_every_group_one_level() {
    let source = "object.foo().bar().baz()";
    let mut ast = Ast::new();
    let root = three_calls(&mut ast);
    let members = chain_members(&ast, root);
    let options = FormatOptions { line_width: 10, indent_width: 4, ..FormatOptions::default() };
    let document = layout_member_chain(&ast, documents(&ast, &members, source));
    assert_eq!(print(&document, options), "object\n    .foo()\n    .bar()\n    .baz()");
    let options = FormatOptions { line_width: 10, indent_style: IndentStyle::Tab, ..FormatOptions::default() };
    let document = layout_member_chain(&ast, documents(&ast, &members, source));
    assert_eq!(print(&document, options), "object\n\t.foo()\n\t.bar()\n\t.baz()");
}

#[test]
fn chain_is_printed_with_its_comments() {
    let source = "a /* l */ .b /* t */\n  // next\n  ?.c // last";
    let mut ast = Ast::new();
    let root = two_members(&mut ast, source);
    let mut comments = Comments::new(vec![
        comment_at(source, "/* l */", CommentKind::Block),
        comment_at(source, "/* t */", CommentKind::Block),
        comment_at(source, "// next", CommentKind::Line),
        comment_at(source, "// last", CommentKind::Line),
    ])
    .unwrap();
    let mut links = Vec::new();
    for member in chain_members(&ast, root) {
        let inner = match member {
            ChainMember::Node(_) => text("a"),
            ChainMember::StaticMember(id) if id == root => text("c"),
            _ => text("b"),
        };
        let document = member.format(&ast, &mut comments, source, inner).unwrap();
        links.push(FormattedLink { member, document, keep_on_line: false });
    }
    assert_eq!(comments.finish(), Ok(()));
    let document = layout_member_chain(&ast, links);
    assert_eq!(print(&document, width(80)), "a/* l */ .b /* t */// next\n?.c // last");
}

/// The links of `members`, where every call holds `arguments` and every other
/// link its text.
fn links_with_arguments(
    ast: &Ast,
    members: &[ChainMember],
    source: &str,
    arguments: impl Fn() -> FormatElement,
) -> Vec<FormattedLink> {
    documents(ast, members, source)
        .into_iter()
        .map(|link| match link.member {
            ChainMember::CallExpression { .. } => {
                let parts =
                    ChainMemberParts { leading_comments: empty(), inner: arguments(), trailing_comments: empty() };
                FormattedLink { document: link.member.fmt(ast, parts), ..link }
            }
            _ => link,
        })
        .collect()
}

/// `(` and `)` around `x`, which moves to a line of its own where the group
/// does not fit.
fn breaking_arguments() -> FormatElement {
    group(sequence(vec![
        text("("),
        indent(sequence(vec![soft_line_break(), text("xxxx")])),
        soft_line_break(),
        text(")"),
    ]))
}

#[test]
fn broken_chain_prints_every_group_at_the_level_of_the_chain() {
    let source = "object.foo().bar().baz()";
    let mut ast = Ast::new();
    let root = three_calls(&mut ast);
    let members = chain_members(&ast, root);
    // wide enough for every link, too narrow for the chain
    let document = layout_member_chain(&ast, links_with_arguments(&ast, &members, source, breaking_arguments));
    assert_eq!(print(&document, width(20)), "object\n  .foo(xxxx)\n  .bar(xxxx)\n  .baz(xxxx)");
    // too narrow for a link: what the link holds breaks one level deeper
    let document = layout_member_chain(&ast, links_with_arguments(&ast, &members, source, breaking_arguments));
    assert_eq!(
        print(&document, width(10)),
        "object\n  .foo(\n    xxxx\n  )\n  .bar(\n    xxxx\n  )\n  .baz(\n    xxxx\n  )"
    );
    let document = layout_member_chain(&ast, links_with_arguments(&ast, &members, source, breaking_arguments));
    assert_eq!(print(&document, width(80)), "object.foo(xxxx).bar(xxxx).baz(xxxx)");
}

#[test]
fn short_chain_decides_for_itself_whether_it_fits() {
    let source = "a.b().c()";
    let mut ast = Ast::new();
    let a = put(&mut ast, NodeKind::Identifier { name: "a".to_string() }, 0, 1);
    let b = put(&mut ast, NodeKind::IdentifierName { name: "b".to_string() }, 2, 3);
    let member = put(&mut ast, NodeKind::StaticMemberExpression { object: a, property: b, optional: false }, 0, 3);
    let call = put(&mut ast, NodeKind::CallExpression { callee: member, arguments: vec![], optional: false }, 0, 5);
    let c = put(&mut ast, NodeKind::IdentifierName { name: "c".to_string() }, 6, 7);
    let member = put(&mut ast, NodeKind::StaticMemberExpression { object: call, property: c, optional: false }, 0, 7);
    let root = put(&mut ast, NodeKind::CallExpression { callee: member, arguments: vec![], optional: false }, 0, 9);
    let members = chain_members(&ast, root);
    // a soft break that belongs to no group inside the links
    let loose = || sequence(vec![text("("), soft_line_break(), text(")")]);
    let chain = || layout_member_chain(&ast, links_with_arguments(&ast, &members, source, loose));
    // the chain fits: one line, although the group around it is broken
    let around = group(sequence(vec![text("0123456789"), hard_line_break(), chain()]));
    assert_eq!(print(&around, width(80)), "0123456789\na.b().c()");
    // the chain does not fit: its own soft breaks break, and no line breaks
    // between two links
    assert_eq!(print(&chain(), width(5)), "a.b(\n).c(\n)");
    assert_eq!(print(&chain(), width(9)), "a.b().c()");
}
