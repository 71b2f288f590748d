//! `expression as Type` and `expression satisfies Type`.

use vstd::prelude::*;
use crate::ast::{Ast, AstView, NodeId, NodeKind};
use crate::document::{group, space, text, FormatElement};
use crate::document::spec_is_text;
use crate::span::Span;
use crate::utils::{is_expression_used_as_call_argument, spec_is_expression_used_as_call_argument};

verus! {

/// An expression with the span `span` stands under `parent` as a callee or
/// an argument of a call or `new`, or as the object of a member access.
pub open spec fn spec_is_callee_or_object_context(
    tree: AstView,
    span: Span,
    parent: Option<NodeId>,
) -> bool {
    parent matches Some(p) && match tree.kind(p) {
        NodeKind::CallExpression { callee, .. } => tree.span(callee) == span
            || spec_is_expression_used_as_call_argument(tree, span, p),
        NodeKind::NewExpression { callee, .. } => tree.span(callee) == span
            || spec_is_expression_used_as_call_argument(tree, span, p),
        NodeKind::StaticMemberExpression { .. } => true,
        NodeKind::ComputedMemberExpression { object, .. } => tree.span(object) == span,
        _ => false,
    }
}

/// Whether an expression with the span `span` stands under `parent` as a
/// callee, an argument or an object.
pub fn is_callee_or_object_context(ast: &Ast, span: Span, parent: Option<NodeId>) -> (inside: bool)
    requires
        ast@.wf(),
        parent matches Some(p) ==> p < ast@.len(),
    ensures
        inside == spec_is_callee_or_object_context(ast@, span, parent),
{
    let p = match parent {
        Some(p) => p,
        None => {
            return false;
        },
    };
    match ast.kind(p) {
        NodeKind::CallExpression { callee, .. } => {
            ast.span(*callee) == span || is_expression_used_as_call_argument(ast, span, p)
        },
        NodeKind::NewExpression { callee, .. } => {
            ast.span(*callee) == span || is_expression_used_as_call_argument(ast, span, p)
        },
        NodeKind::StaticMemberExpression { .. } => true,
        NodeKind::ComputedMemberExpression { object, .. } => ast.span(*object) == span,
        _ => false,
    }
}

/// `element` holds the expression, a space, the word `operation`, a space
/// and the type, in this order.
pub open spec fn spec_is_cast_body(
    element: FormatElement,
    expression: FormatElement,
    type_annotation: FormatElement,
    operation: Seq<char>,
) -> bool {
    &&& element matches FormatElement::Concat(items)
    &&& items@.len() == 5
    &&& items@[0] == expression
    &&& spec_is_text(items@[1], " "@)
    &&& spec_is_text(items@[2], operation)
    &&& spec_is_text(items@[3], " "@)
    &&& items@[4] == type_annotation
}

/// `element` is the document of a cast: its body, as a group of its own
/// where the cast is a callee, an argument or an object, so that it is not
/// torn apart by the breaks of what surrounds it.
pub open spec fn spec_is_cast_document(
    element: FormatElement,
    expression: FormatElement,
    type_annotation: FormatElement,
    is_callee_or_object: bool,
    operation: Seq<char>,
) -> bool {
    if is_callee_or_object {
        element matches FormatElement::Group(body) && spec_is_cast_body(
            *body,
            expression,
            type_annotation,
            operation,
        )
    } else {
        spec_is_cast_body(element, expression, type_annotation, operation)
    }
}

/// Builds the document of `expression as Type` or `expression satisfies
/// Type` from the documents of the expression and of the type.
pub fn format_as_or_satisfies_expression(
    expression: FormatElement,
    type_annotation: FormatElement,
    is_callee_or_object: bool,
    operation: &'static str,
) -> (element: FormatElement)
    ensures
        spec_is_cast_document(
            element,
            expression,
            type_annotation,
            is_callee_or_object,
            operation@,
        ),
{
    let mut items: Vec<FormatElement> = Vec::new();
    items.push(expression);
    items.push(space());
    items.push(text(operation));
    items.push(space());
    items.push(type_annotation);
    let format_inner = FormatElement::Concat(items);
    if is_callee_or_object {
        group(format_inner)
    } else {
        format_inner
    }
}

/// The word of the cast `id`: `as`, or `satisfies`.
pub open spec fn spec_cast_word(tree: AstView, id: NodeId) -> Seq<char> {
    if tree.kind(id) is TSSatisfiesExpression {
        "satisfies"@
    } else {
        "as"@
    }
}

/// Builds the document of the cast `id` from the documents of its
/// expression and of its type.
pub fn write(
    ast: &Ast,
    id: NodeId,
    expression: FormatElement,
    type_annotation: FormatElement,
) -> (element: FormatElement)
    requires
        ast@.wf(),
        id < ast@.len(),
        ast@.kind(id) is TSAsExpression || ast@.kind(id) is TSSatisfiesExpression,
    ensures
        spec_is_cast_document(
            element,
            expression,
            type_annotation,
            spec_is_callee_or_object_context(ast@, ast@.span(id), ast@.parent(id)),
            spec_cast_word(ast@, id),
        ),
{
    let is_callee_or_object = is_callee_or_object_context(ast, ast.span(id), ast.parent(id));
    let operation = match ast.kind(id) {
        NodeKind::TSSatisfiesExpression { .. } => "satisfies",
        _ => "as",
    };
    format_as_or_satisfies_expression(expression, type_annotation, is_callee_or_object, operation)
}

} // verus!
