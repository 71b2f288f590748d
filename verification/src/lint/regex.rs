//! Finding the regular expressions of a program: literals, and the patterns
//! handed to `RegExp` as string literals.
//!
//! Which names refer to globals is not decided here. The caller says so with
//! one flag for each node of the tree.

use vstd::prelude::*;
use crate::ast::{Ast, AstView, NodeId, NodeKind};
use crate::lint::no_conditional_expect::{is_name, spec_is_name};
use crate::span::Span;
use crate::text::str_equals;

verus! {

/// Where the pattern of a regular expression stands in the source text.
#[derive(Clone, Copy, Debug, PartialEq, Eq, Structural)]
pub enum RegexSource {
    /// A literal `/pattern/flags`, which the parser has parsed already. The
    /// span is that of the whole literal.
    Literal { span: Span },
    /// A string literal handed to `RegExp` or `new RegExp`, with the string
    /// literal of the flags where there is one. The pattern is yet to be
    /// parsed.
    Constructed { pattern: Span, flags: Option<Span> },
}

/// The offsets that the parser of a constructed pattern adds to what it
/// finds, so that its spans point into the source text.
#[derive(Clone, Copy, Debug, PartialEq, Eq, Structural)]
pub struct RegexOffsets {
    pub pattern_span_offset: u32,
    pub flags_span_offset: u32,
}

/// The expression names the global `RegExp`: as `RegExp`, or as
/// `globalThis.RegExp`.
pub open spec fn spec_is_regexp_callee(tree: AstView, globals: Seq<bool>, callee: NodeId) -> bool {
    (spec_is_name(tree, callee, "RegExp"@) && globals[callee as int]) || (tree.kind(
        callee,
    ) matches NodeKind::StaticMemberExpression { object, property, .. } && (spec_is_name(
        tree,
        object,
        "globalThis"@,
    ) && globals[object as int] && (tree.kind(property) matches NodeKind::IdentifierName { name }
        && name@ == "RegExp"@)))
}

/// Whether the expression names the global `RegExp`.
pub fn is_regexp_callee(ast: &Ast, globals: &Vec<bool>, callee: NodeId) -> (regexp: bool)
    requires
        ast@.wf(),
        callee < ast@.len(),
        globals@.len() == ast@.len(),
    ensures
        regexp == spec_is_regexp_callee(ast@, globals@, callee),
{
    if is_name(ast, callee, "RegExp") && globals[callee] {
        return true;
    }
    if let NodeKind::StaticMemberExpression { object, property, .. } = ast.kind(callee) {
        if is_name(ast, *object, "globalThis") && globals[*object] {
            if let NodeKind::IdentifierName { name } = ast.kind(*property) {
                return str_equals(name.as_str(), "RegExp");
            }
        }
    }
    false
}

/// The pattern that the arguments of a call of `RegExp` hand over: the first
/// argument if it is a string literal, with the second as its flags if that
/// is a string literal too.
pub open spec fn spec_constructed(tree: AstView, arguments: Seq<NodeId>) -> Option<RegexSource> {
    if arguments.len() >= 1 && tree.kind(arguments[0]) is StringLiteral {
        Some(
            RegexSource::Constructed {
                pattern: tree.span(arguments[0]),
                flags: if arguments.len() >= 2 && tree.kind(arguments[1]) is StringLiteral {
                    Some(tree.span(arguments[1]))
                } else {
                    None
                },
            },
        )
    } else {
        None
    }
}

/// The pattern that the arguments of a call of `RegExp` hand over.
fn constructed(ast: &Ast, arguments: &Vec<NodeId>) -> (source: Option<RegexSource>)
    requires
        ast@.wf(),
        forall|k: int| 0 <= k < arguments.len() ==> (#[trigger] arguments@[k]) < ast@.len(),
    ensures
        source == spec_constructed(ast@, arguments@),
{
    if arguments.len() == 0 {
        return None;
    }
    if let NodeKind::StringLiteral = ast.kind(arguments[0]) {
        let pattern = ast.span(arguments[0]);
        if arguments.len() >= 2 {
            if let NodeKind::StringLiteral = ast.kind(arguments[1]) {
                return Some(
                    RegexSource::Constructed { pattern, flags: Some(ast.span(arguments[1])) },
                );
            }
        }
        return Some(RegexSource::Constructed { pattern, flags: None });
    }
    None
}

/// The regular expression that the node `node` holds, if it holds one: a
/// literal, or a call of `RegExp`, with `new` or without, whose first
/// argument is a string literal.
pub open spec fn spec_run_on_regex_node(tree: AstView, globals: Seq<bool>, node: NodeId) -> Option<
    RegexSource,
> {
    match tree.kind(node) {
        NodeKind::RegExpLiteral => Some(RegexSource::Literal { span: tree.span(node) }),
        NodeKind::NewExpression { callee, arguments } => if spec_is_regexp_callee(
            tree,
            globals,
            callee,
        ) {
            spec_constructed(tree, arguments@)
        } else {
            None
        },
        NodeKind::CallExpression { callee, arguments, .. } => if spec_is_regexp_callee(
            tree,
            globals,
            callee,
        ) {
            spec_constructed(tree, arguments@)
        } else {
            None
        },
        _ => None,
    }
}

/// Finds the regular expression that `node` holds.
pub fn run_on_regex_node(ast: &Ast, globals: &Vec<bool>, node: NodeId) -> (source: Option<
    RegexSource,
>)
    requires
        ast@.wf(),
        node < ast@.len(),
        globals@.len() == ast@.len(),
    ensures
        source == spec_run_on_regex_node(ast@, globals@, node),
{
    match ast.kind(node) {
        NodeKind::RegExpLiteral => Some(RegexSource::Literal { span: ast.span(node) }),
        NodeKind::NewExpression { callee, arguments } => {
            if is_regexp_callee(ast, globals, *callee) {
                constructed(ast, arguments)
            } else {
                None
            }
        },
        NodeKind::CallExpression { callee, arguments, .. } => {
            if is_regexp_callee(ast, globals, *callee) {
                constructed(ast, arguments)
            } else {
                None
            }
        },
        _ => None,
    }
}

/// The offsets for parsing a constructed pattern: where the pattern begins,
/// and where the flags begin, 0 where there are none.
pub fn parse_regex(pattern_span: Span, flags_span: Option<Span>) -> (offsets: RegexOffsets)
    ensures
        offsets.pattern_span_offset == pattern_span.start,
        offsets.flags_span_offset == match flags_span {
            Some(span) => span.start,
            None => 0,
        },
{
    RegexOffsets {
        pattern_span_offset: pattern_span.start,
        flags_span_offset: match flags_span {
            Some(span) => span.start,
            None => 0,
        },
    }
}

} // verus!
