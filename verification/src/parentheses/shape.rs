//! Walks down the left edge and down the member chain of an expression.

use vstd::prelude::*;
use crate::ast::{Ast, AstView, NodeId, NodeKind};
use crate::span::Span;

verus! {

/// The expression inside any number of kept parentheses.
pub open spec fn spec_without_parentheses(tree: AstView, id: NodeId) -> NodeId
    decreases id,
{
    match tree.kind(id) {
        NodeKind::ParenthesizedExpression { expression } if expression < id => spec_without_parentheses(
            tree,
            expression,
        ),
        _ => id,
    }
}

/// Strips kept parentheses from around an expression.
pub fn without_parentheses(ast: &Ast, id: NodeId) -> (inner: NodeId)
    requires
        ast@.wf(),
        id < ast@.len(),
    ensures
        inner == spec_without_parentheses(ast@, id),
        inner <= id,
{
    let mut current = id;
    loop
        invariant
            ast@.wf(),
            current <= id < ast@.len(),
            spec_without_parentheses(ast@, id) == spec_without_parentheses(ast@, current),
        decreases current,
    {
        match ast.kind(current) {
            NodeKind::ParenthesizedExpression { expression } => {
                current = *expression;
            },
            _ => {
                return current;
            },
        }
    }
}

/// An expression is or contains a call when it is a call, or a member access
/// or tagged template whose object or tag is or contains one.
pub open spec fn spec_expression_is_or_contains_call(tree: AstView, id: NodeId) -> bool
    decreases id,
{
    match tree.kind(id) {
        NodeKind::CallExpression { .. } => true,
        NodeKind::TaggedTemplateExpression { tag, .. } => tag < id
            && spec_expression_is_or_contains_call(tree, tag),
        NodeKind::ComputedMemberExpression { object, .. } => object < id
            && spec_expression_is_or_contains_call(tree, object),
        NodeKind::StaticMemberExpression { object, .. } => object < id
            && spec_expression_is_or_contains_call(tree, object),
        NodeKind::PrivateFieldExpression { object, .. } => object < id
            && spec_expression_is_or_contains_call(tree, object),
        _ => false,
    }
}

/// Whether an expression is a call or reaches one through objects and tags.
pub fn expression_is_or_contains_call(ast: &Ast, id: NodeId) -> (found: bool)
    requires
        ast@.wf(),
        id < ast@.len(),
    ensures
        found == spec_expression_is_or_contains_call(ast@, id),
{
    let mut current = id;
    loop
        invariant
            ast@.wf(),
            current < ast@.len(),
            spec_expression_is_or_contains_call(ast@, id) == spec_expression_is_or_contains_call(
                ast@,
                current,
            ),
        decreases current,
    {
        match ast.kind(current) {
            NodeKind::CallExpression { .. } => {
                return true;
            },
            NodeKind::TaggedTemplateExpression { tag, .. } => {
                current = *tag;
            },
            NodeKind::ComputedMemberExpression { object, .. } => {
                current = *object;
            },
            NodeKind::StaticMemberExpression { object, .. } => {
                current = *object;
            },
            NodeKind::PrivateFieldExpression { object, .. } => {
                current = *object;
            },
            _ => {
                return false;
            },
        }
    }
}

/// Whether the object of a member access is or contains a call; `false` for
/// a node that is no member access.
pub open spec fn spec_member_has_call_object(tree: AstView, member: NodeId) -> bool {
    match tree.kind(member) {
        NodeKind::ComputedMemberExpression { object, .. } => spec_expression_is_or_contains_call(
            tree,
            object,
        ),
        NodeKind::StaticMemberExpression { object, .. } => spec_expression_is_or_contains_call(
            tree,
            object,
        ),
        NodeKind::PrivateFieldExpression { object, .. } => spec_expression_is_or_contains_call(
            tree,
            object,
        ),
        _ => false,
    }
}

/// Whether the object of a member access is or contains a call.
pub fn member_has_call_object(ast: &Ast, member: NodeId) -> (found: bool)
    requires
        ast@.wf(),
        member < ast@.len(),
    ensures
        found == spec_member_has_call_object(ast@, member),
{
    match ast.kind(member) {
        NodeKind::ComputedMemberExpression { object, .. } => expression_is_or_contains_call(
            ast,
            *object,
        ),
        NodeKind::StaticMemberExpression { object, .. } => expression_is_or_contains_call(
            ast,
            *object,
        ),
        NodeKind::PrivateFieldExpression { object, .. } => expression_is_or_contains_call(
            ast,
            *object,
        ),
        _ => false,
    }
}

/// A decorator may hold, without parentheses, a name or a chain of dotted
/// names: `a`, `a.b.c`. Nothing optional, nothing computed, no call.
pub open spec fn spec_is_decorator_member_expression(tree: AstView, id: NodeId) -> bool
    decreases id,
{
    match tree.kind(id) {
        NodeKind::Identifier { .. } => true,
        NodeKind::StaticMemberExpression { object, optional, .. } => !optional && object < id
            && spec_is_decorator_member_expression(tree, object),
        _ => false,
    }
}

/// Whether an expression can stand in a decorator without parentheses.
pub fn is_decorator_member_expression(ast: &Ast, id: NodeId) -> (plain: bool)
    requires
        ast@.wf(),
        id < ast@.len(),
    ensures
        plain == spec_is_decorator_member_expression(ast@, id),
{
    let mut current = id;
    loop
        invariant
            ast@.wf(),
            current < ast@.len(),
            spec_is_decorator_member_expression(ast@, id) == spec_is_decorator_member_expression(
                ast@,
                current,
            ),
        decreases current,
    {
        match ast.kind(current) {
            NodeKind::Identifier { .. } => {
                return true;
            },
            NodeKind::StaticMemberExpression { object, optional, .. } => {
                if *optional {
                    return false;
                }
                current = *object;
            },
            _ => {
                return false;
            },
        }
    }
}

/// The callee of a `new` expression needs parentheses when a call stands on
/// its chain of member accesses and non-null assertions.
pub open spec fn spec_member_chain_callee_needs_parens(tree: AstView, id: NodeId) -> bool
    decreases id,
{
    match tree.kind(id) {
        NodeKind::CallExpression { .. } => true,
        NodeKind::ComputedMemberExpression { object, .. } => object < id
            && spec_member_chain_callee_needs_parens(tree, object),
        NodeKind::StaticMemberExpression { object, .. } => object < id
            && spec_member_chain_callee_needs_parens(tree, object),
        NodeKind::TSNonNullExpression { expression } => expression < id
            && spec_member_chain_callee_needs_parens(tree, expression),
        _ => false,
    }
}

/// Whether a call stands on the member chain that ends in `id`.
pub fn member_chain_callee_needs_parens(ast: &Ast, id: NodeId) -> (needed: bool)
    requires
        ast@.wf(),
        id < ast@.len(),
    ensures
        needed == spec_member_chain_callee_needs_parens(ast@, id),
{
    let mut current = id;
    loop
        invariant
            ast@.wf(),
            current < ast@.len(),
            spec_member_chain_callee_needs_parens(ast@, id)
                == spec_member_chain_callee_needs_parens(ast@, current),
        decreases current,
    {
        match ast.kind(current) {
            NodeKind::CallExpression { .. } => {
                return true;
            },
            NodeKind::ComputedMemberExpression { object, .. } => {
                current = *object;
            },
            NodeKind::StaticMemberExpression { object, .. } => {
                current = *object;
            },
            NodeKind::TSNonNullExpression { expression } => {
                current = *expression;
            },
            _ => {
                return false;
            },
        }
    }
}

/// The child with which an expression starts, if it starts with one: the
/// object of a member access, the callee of a call, the left operand of a
/// binary expression, and so on. `None` for an expression that starts with a
/// token of its own.
pub open spec fn spec_left_side(tree: AstView, id: NodeId) -> Option<NodeId> {
    match tree.kind(id) {
        NodeKind::SequenceExpression { expressions } => if expressions@.len() > 0 {
            Some(expressions@[0])
        } else {
            None
        },
        NodeKind::StaticMemberExpression { object, .. } => Some(object),
        NodeKind::ComputedMemberExpression { object, .. } => Some(object),
        NodeKind::PrivateFieldExpression { object, .. } => Some(object),
        NodeKind::TaggedTemplateExpression { tag, .. } => Some(tag),
        NodeKind::NewExpression { callee, .. } => Some(callee),
        NodeKind::CallExpression { callee, .. } => Some(callee),
        NodeKind::ConditionalExpression { test, .. } => Some(test),
        NodeKind::TSAsExpression { expression, .. } => Some(expression),
        NodeKind::TSSatisfiesExpression { expression, .. } => Some(expression),
        NodeKind::TSNonNullExpression { expression } => Some(expression),
        NodeKind::AssignmentExpression { left, .. } => Some(left),
        NodeKind::UpdateExpression { prefix, argument, .. } => if prefix {
            None
        } else {
            Some(argument)
        },
        NodeKind::BinaryExpression { left, .. } => Some(left),
        NodeKind::LogicalExpression { left, .. } => Some(left),
        NodeKind::ChainExpression { expression } => Some(expression),
        _ => None,
    }
}

/// The child with which an expression starts, if it starts with one.
pub fn left_side(ast: &Ast, id: NodeId) -> (left: Option<NodeId>)
    requires
        ast@.wf(),
        id < ast@.len(),
    ensures
        left == spec_left_side(ast@, id),
        left matches Some(child) ==> child < id,
{
    match ast.kind(id) {
        NodeKind::SequenceExpression { expressions } => {
            if expressions.len() > 0 {
                Some(expressions[0])
            } else {
                None
            }
        },
        NodeKind::StaticMemberExpression { object, .. } => Some(*object),
        NodeKind::ComputedMemberExpression { object, .. } => Some(*object),
        NodeKind::PrivateFieldExpression { object, .. } => Some(*object),
        NodeKind::TaggedTemplateExpression { tag, .. } => Some(*tag),
        NodeKind::NewExpression { callee, .. } => Some(*callee),
        NodeKind::CallExpression { callee, .. } => Some(*callee),
        NodeKind::ConditionalExpression { test, .. } => Some(*test),
        NodeKind::TSAsExpression { expression, .. } => Some(*expression),
        NodeKind::TSSatisfiesExpression { expression, .. } => Some(*expression),
        NodeKind::TSNonNullExpression { expression } => Some(*expression),
        NodeKind::AssignmentExpression { left, .. } => Some(*left),
        NodeKind::UpdateExpression { prefix, argument, .. } => {
            if *prefix {
                None
            } else {
                Some(*argument)
            }
        },
        NodeKind::BinaryExpression { left, .. } => Some(*left),
        NodeKind::LogicalExpression { left, .. } => Some(*left),
        NodeKind::ChainExpression { expression } => Some(*expression),
        _ => None,
    }
}

/// The node with which the text of an expression begins: the end of the walk
/// from child to left child.
pub open spec fn spec_leftmost(tree: AstView, id: NodeId) -> NodeId
    decreases id,
{
    match spec_left_side(tree, id) {
        Some(child) if child < id => spec_leftmost(tree, child),
        _ => id,
    }
}

/// The node with which the text of an expression begins.
pub fn leftmost(ast: &Ast, id: NodeId) -> (first: NodeId)
    requires
        ast@.wf(),
        id < ast@.len(),
    ensures
        first == spec_leftmost(ast@, id),
        first <= id,
        spec_left_side(ast@, first) is None,
{
    let mut current = id;
    loop
        invariant
            ast@.wf(),
            current <= id < ast@.len(),
            spec_leftmost(ast@, id) == spec_leftmost(ast@, current),
        decreases current,
    {
        match left_side(ast, current) {
            Some(child) => {
                current = child;
            },
            None => {
                return current;
            },
        }
    }
}

/// A call stands on the left edge of an expression, at `id` or below it.
pub open spec fn spec_left_edge_has_call(tree: AstView, id: NodeId) -> bool
    decreases id,
{
    tree.kind(id) is CallExpression || match spec_left_side(tree, id) {
        Some(child) if child < id => spec_left_edge_has_call(tree, child),
        _ => false,
    }
}

/// Whether a call stands on the left edge of an expression.
pub fn left_edge_has_call(ast: &Ast, id: NodeId) -> (found: bool)
    requires
        ast@.wf(),
        id < ast@.len(),
    ensures
        found == spec_left_edge_has_call(ast@, id),
{
    let mut current = id;
    loop
        invariant
            ast@.wf(),
            current < ast@.len(),
            spec_left_edge_has_call(ast@, id) == spec_left_edge_has_call(ast@, current),
        decreases current,
    {
        if let NodeKind::CallExpression { .. } = ast.kind(current) {
            return true;
        }
        match left_side(ast, current) {
            Some(child) => {
                current = child;
            },
            None => {
                return false;
            },
        }
    }
}

/// `span` is the span of the expression that a class extends, kept
/// parentheses aside.
pub open spec fn spec_is_class_extends(tree: AstView, parent: Option<NodeId>, span: Span) -> bool {
    &&& parent matches Some(p)
    &&& tree.kind(p) matches NodeKind::Class { super_class: Some(super_class), .. }
    &&& tree.span(spec_without_parentheses(tree, super_class)) == span
}

/// Whether `parent` is a class that extends the expression with the span
/// `span`.
pub fn is_class_extends(ast: &Ast, parent: Option<NodeId>, span: Span) -> (extends: bool)
    requires
        ast@.wf(),
        parent matches Some(p) ==> p < ast@.len(),
    ensures
        extends == spec_is_class_extends(ast@, parent, span),
{
    if let Some(p) = parent {
        if let NodeKind::Class { super_class: Some(super_class), .. } = ast.kind(p) {
            let inner = without_parentheses(ast, *super_class);
            return ast.span(inner) == span;
        }
    }
    false
}

} // verus!
