//! Questions about where an expression stands in its parent.

use vstd::prelude::*;
use crate::ast::{Ast, AstView, NodeId, NodeKind};
use crate::span::Span;

verus! {

/// Some node of `ids` has exactly the span `span`, or a span that covers it.
pub open spec fn any_span_covers(tree: AstView, ids: Seq<NodeId>, span: Span) -> bool {
    exists|k: int| 0 <= k < ids.len() && #[trigger] tree.span(ids[k]).covers(span)
}

/// Whether some node of `ids` covers `span`.
pub fn some_span_covers(ast: &Ast, ids: &Vec<NodeId>, span: Span) -> (found: bool)
    requires
        forall|k: int| 0 <= k < ids.len() ==> (#[trigger] ids@[k]) < ast@.len(),
    ensures
        found == any_span_covers(ast@, ids@, span),
{
    let mut i: usize = 0;
    while i < ids.len()
        invariant
            i <= ids.len(),
            forall|k: int| 0 <= k < ids.len() ==> (#[trigger] ids@[k]) < ast@.len(),
            forall|k: int| 0 <= k < i ==> !(#[trigger] ast@.span(ids@[k])).covers(span),
        decreases ids.len() - i,
    {
        if ast.span(ids[i]).contains_inclusive(span) {
            assert(ast@.span(ids@[i as int]).covers(span));
            return true;
        }
        i += 1;
    }
    false
}

/// A call is a long curried call when it is the callee of another call that
/// has arguments, but fewer than the inner call: `connect(a, b, c)(d)`.
pub open spec fn spec_is_long_curried_call(tree: AstView, call: NodeId) -> bool {
    &&& tree.kind(call) matches NodeKind::CallExpression { arguments, .. }
    &&& tree.parent(call) matches Some(parent)
    &&& tree.kind(parent) matches NodeKind::CallExpression { callee, arguments: outer, .. }
    &&& tree.span(callee) == tree.span(call)
    &&& outer@.len() != 0
    &&& arguments@.len() > outer@.len()
}

/// Tests whether `call` is a long curried call.
pub fn is_long_curried_call(ast: &Ast, call: NodeId) -> (long: bool)
    requires
        ast@.wf(),
        call < ast@.len(),
    ensures
        long == spec_is_long_curried_call(ast@, call),
{
    if let NodeKind::CallExpression { arguments, .. } = ast.kind(call) {
        if let Some(parent) = ast.parent(call) {
            if let NodeKind::CallExpression { callee, arguments: outer, .. } = ast.kind(parent) {
                if ast.span(*callee) != ast.span(call) {
                    return false;
                }
                if outer.len() == 0 {
                    return false;
                }
                return arguments.len() > outer.len();
            }
        }
    }
    false
}

/// An expression with the span `span` stands in argument position under
/// `parent` when `parent` is a call or a `new` expression of which it is not
/// the callee, and its span lies within the span of one of the arguments.
/// Under any other parent nothing is an argument.
pub open spec fn spec_is_expression_used_as_call_argument(
    tree: AstView,
    span: Span,
    parent: NodeId,
) -> bool {
    match tree.kind(parent) {
        NodeKind::CallExpression { callee, arguments, .. } => tree.span(callee) != span
            && any_span_covers(tree, arguments@, span),
        NodeKind::NewExpression { callee, arguments } => tree.span(callee) != span
            && any_span_covers(tree, arguments@, span),
        _ => false,
    }
}

/// Whether an expression with the span `span` stands in argument position
/// under `parent`.
pub fn is_expression_used_as_call_argument(ast: &Ast, span: Span, parent: NodeId) -> (used: bool)
    requires
        ast@.wf(),
        parent < ast@.len(),
    ensures
        used == spec_is_expression_used_as_call_argument(ast@, span, parent),
{
    match ast.kind(parent) {
        NodeKind::CallExpression { callee, arguments, .. } => {
            if ast.span(*callee) == span {
                return false;
            }
            some_span_covers(ast, arguments, span)
        },
        NodeKind::NewExpression { callee, arguments } => {
            if ast.span(*callee) == span {
                return false;
            }
            some_span_covers(ast, arguments, span)
        },
        _ => false,
    }
}

/// Whether a node with the span `span` is used as an argument under
/// `parent`: see [`spec_is_expression_used_as_call_argument`].
pub open spec fn spec_is_node_argument(tree: AstView, span: Span, parent: NodeId) -> bool {
    spec_is_expression_used_as_call_argument(tree, span, parent)
}

/// Whether a node with the span `span` is used as an argument under `parent`.
pub fn is_node_argument(ast: &Ast, span: Span, parent: NodeId) -> (used: bool)
    requires
        ast@.wf(),
        parent < ast@.len(),
    ensures
        used == spec_is_node_argument(ast@, span, parent),
{
    is_expression_used_as_call_argument(ast, span, parent)
}

/// Only a call and a `new` expression put an expression in argument
/// position.
pub proof fn lemma_argument_parent_kinds(tree: AstView, span: Span, parent: NodeId)
    requires
        spec_is_node_argument(tree, span, parent),
    ensures
        tree.kind(parent) is CallExpression || tree.kind(parent) is NewExpression,
{
}

/// The callee of a call or of a `new` expression never counts as one of its
/// arguments.
pub proof fn lemma_callee_is_no_argument(tree: AstView, span: Span, parent: NodeId)
    requires
        (tree.kind(parent) matches NodeKind::CallExpression { callee, .. } && tree.span(callee)
            == span) || (tree.kind(parent) matches NodeKind::NewExpression { callee, .. }
            && tree.span(callee) == span),
    ensures
        !spec_is_node_argument(tree, span, parent),
{
}

} // verus!
