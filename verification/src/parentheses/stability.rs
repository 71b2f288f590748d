//! Printing twice: the rules decide by the shape of the tree, not by where
//! its nodes stand in the text. A tree that is read back from its printed
//! text has the same nodes at other offsets, and every node of it is wrapped
//! where it was wrapped before.

use vstd::prelude::*;
use crate::ast::{AstView, NodeId, NodeKind};
use crate::parentheses::expression::{
    spec_identifier_needs_parentheses,
    spec_numeric_literal_needs_parentheses,
    spec_string_literal_needs_parentheses,
    spec_object_expression_needs_parentheses,
    spec_computed_member_expression_needs_parentheses,
    spec_static_member_expression_needs_parentheses,
    spec_call_expression_needs_parentheses,
    spec_new_expression_needs_parentheses,
    spec_update_expression_needs_parentheses,
    spec_unary_expression_needs_parentheses,
    spec_binary_expression_needs_parentheses,
    spec_logical_expression_needs_parentheses,
    spec_conditional_expression_needs_parentheses,
    spec_function_needs_parentheses,
    spec_assignment_expression_needs_parentheses,
    spec_sequence_expression_needs_parentheses,
    spec_await_expression_needs_parentheses,
    spec_chain_expression_needs_parentheses,
    spec_class_needs_parentheses,
    spec_arrow_function_expression_needs_parentheses,
    spec_yield_expression_needs_parentheses,
    spec_ts_non_null_expression_needs_parentheses,
    spec_ts_instantiation_expression_needs_parentheses,
    spec_is_argument,
    spec_is_first_in_statement,
    spec_is_in_for_initializer,
    spec_is_new_callee,
    spec_first_in_statement_at,
    spec_for_of_left_at,
    spec_in_for_initializer_at,
    spec_inside_for_in,
    spec_needs_parentheses,
    FirstInStatementMode,
};
use crate::parentheses::shape::{
    spec_is_class_extends,
    spec_expression_is_or_contains_call,
    spec_is_decorator_member_expression,
    spec_left_edge_has_call,
    spec_left_side,
    spec_leftmost,
    spec_member_chain_callee_needs_parens,
    spec_without_parentheses,
};
use crate::document::FormatElement;
use crate::options::FormatOptions;
use crate::parentheses::wrap::{
    lemma_wrapped_alike,
    lemma_wrapped_flat_text,
    spec_is_document_of,
    spec_is_wrapped,
};
use crate::printer::spec_print;
use crate::printer_laws::spec_flat_text;
use crate::utils::any_span_covers;

verus! {

/// `b` is the tree `a` at other offsets: the same nodes with the same
/// parents, and the spans of two nodes are equal, or one within the other,
/// in `b` where they are in `a`.
pub open spec fn spec_is_same_tree(a: AstView, b: AstView) -> bool {
    &&& a.nodes.len() == b.nodes.len()
    &&& a.parents == b.parents
    &&& forall|i: int|
        #![trigger a.nodes[i]]
        #![trigger b.nodes[i]]
        0 <= i < a.nodes.len() ==> a.nodes[i].kind == b.nodes[i].kind
    &&& forall|i: int, j: int|
        #![trigger a.nodes[i], a.nodes[j]]
        #![trigger b.nodes[i], b.nodes[j]]
        0 <= i < a.nodes.len() && 0 <= j < a.nodes.len() ==> (a.nodes[i].span == a.nodes[j].span)
            == (b.nodes[i].span == b.nodes[j].span)
    &&& forall|i: int, j: int|
        #![trigger a.nodes[i], a.nodes[j]]
        #![trigger b.nodes[i], b.nodes[j]]
        0 <= i < a.nodes.len() && 0 <= j < a.nodes.len() ==> a.nodes[i].span.covers(
            a.nodes[j].span,
        ) == b.nodes[i].span.covers(b.nodes[j].span)
}

/// Kept parentheses are stripped down to the same node in both trees.
proof fn lemma_same_without_parentheses(a: AstView, b: AstView, id: NodeId)
    requires
        spec_is_same_tree(a, b),
        id < a.len(),
    ensures
        spec_without_parentheses(a, id) == spec_without_parentheses(b, id),
        spec_without_parentheses(a, id) <= id,
    decreases id,
{
    match a.kind(id) {
        NodeKind::ParenthesizedExpression { expression } if expression < id => {
            lemma_same_without_parentheses(a, b, expression);
        },
        _ => {},
    }
}

/// What holds of the calls on a member chain holds of them in both trees.
proof fn lemma_same_call_inside(a: AstView, b: AstView, id: NodeId)
    requires
        spec_is_same_tree(a, b),
        id < a.len(),
    ensures
        spec_expression_is_or_contains_call(a, id) == spec_expression_is_or_contains_call(b, id),
        spec_member_chain_callee_needs_parens(a, id) == spec_member_chain_callee_needs_parens(
            b,
            id,
        ),
        spec_is_decorator_member_expression(a, id) == spec_is_decorator_member_expression(b, id),
    decreases id,
{
    match a.kind(id) {
        NodeKind::TaggedTemplateExpression { tag, .. } => {
            if tag < id {
                lemma_same_call_inside(a, b, tag);
            }
        },
        NodeKind::ComputedMemberExpression { object, .. } => {
            if object < id {
                lemma_same_call_inside(a, b, object);
            }
        },
        NodeKind::StaticMemberExpression { object, .. } => {
            if object < id {
                lemma_same_call_inside(a, b, object);
            }
        },
        NodeKind::PrivateFieldExpression { object, .. } => {
            if object < id {
                lemma_same_call_inside(a, b, object);
            }
        },
        NodeKind::TSNonNullExpression { expression } => {
            if expression < id {
                lemma_same_call_inside(a, b, expression);
            }
        },
        _ => {},
    }
}

/// The left edge of an expression is the same in both trees.
proof fn lemma_same_left_edge(a: AstView, b: AstView, id: NodeId)
    requires
        spec_is_same_tree(a, b),
        id < a.len(),
    ensures
        spec_leftmost(a, id) == spec_leftmost(b, id),
        spec_leftmost(a, id) <= id,
        spec_left_edge_has_call(a, id) == spec_left_edge_has_call(b, id),
    decreases id,
{
    assert(spec_left_side(a, id) == spec_left_side(b, id));
    match spec_left_side(a, id) {
        Some(child) if child < id => {
            lemma_same_left_edge(a, b, child);
        },
        _ => {},
    }
}

/// The walk up to the start of a statement ends alike in both trees.
proof fn lemma_same_first_in_statement(
    a: AstView,
    b: AstView,
    id: NodeId,
    at: NodeId,
    mode: FirstInStatementMode,
    first: bool,
)
    requires
        a.wf(),
        b.wf(),
        spec_is_same_tree(a, b),
        id < a.len(),
        at < a.len(),
    ensures
        spec_first_in_statement_at(a, a.span(id), at, mode, first) == spec_first_in_statement_at(
            b,
            b.span(id),
            at,
            mode,
            first,
        ),
    decreases a.len() - at,
{
    match a.parent(at) {
        Some(above) => {
            lemma_same_first_in_statement(a, b, at, above, mode, false);
        },
        None => {},
    }
}

/// The walks up to the head of a loop end alike in both trees.
proof fn lemma_same_loop_head(a: AstView, b: AstView, id: NodeId, at: NodeId)
    requires
        a.wf(),
        b.wf(),
        spec_is_same_tree(a, b),
        id < a.len(),
        at < a.len(),
    ensures
        spec_in_for_initializer_at(a, a.span(id), at) == spec_in_for_initializer_at(
            b,
            b.span(id),
            at,
        ),
        spec_for_of_left_at(a, a.span(id), at) == spec_for_of_left_at(b, b.span(id), at),
        spec_inside_for_in(a, at) == spec_inside_for_in(b, at),
    decreases a.len() - at,
{
    match a.parent(at) {
        Some(above) => {
            lemma_same_loop_head(a, b, id, above);
            match a.parent(above) {
                Some(arrow) => {
                    lemma_same_loop_head(a, b, id, arrow);
                },
                None => {},
            }
        },
        None => {},
    }
}

/// A node lies within one of `ids` in the one tree where it does in the
/// other.
proof fn lemma_same_cover(a: AstView, b: AstView, ids: Seq<NodeId>, id: NodeId)
    requires
        spec_is_same_tree(a, b),
        id < a.len(),
        forall|k: int| 0 <= k < ids.len() ==> (#[trigger] ids[k]) < a.len(),
    ensures
        any_span_covers(a, ids, a.span(id)) == any_span_covers(b, ids, b.span(id)),
{
    if any_span_covers(a, ids, a.span(id)) {
        let k = choose|k: int| 0 <= k < ids.len() && #[trigger] a.span(ids[k]).covers(a.span(id));
        assert(b.span(ids[k]).covers(b.span(id)));
    }
    if any_span_covers(b, ids, b.span(id)) {
        let k = choose|k: int| 0 <= k < ids.len() && #[trigger] b.span(ids[k]).covers(b.span(id));
        assert(a.span(ids[k]).covers(a.span(id)));
    }
}

/// The children of a node agree in both trees.
spec fn spec_same_below(a: AstView, b: AstView, id: NodeId) -> bool {
    &&& spec_without_parentheses(a, id) == spec_without_parentheses(b, id)
    &&& spec_without_parentheses(a, id) <= id
    &&& spec_leftmost(a, id) == spec_leftmost(b, id)
    &&& spec_leftmost(a, id) <= id
    &&& spec_left_edge_has_call(a, id) == spec_left_edge_has_call(b, id)
    &&& spec_expression_is_or_contains_call(a, id) == spec_expression_is_or_contains_call(b, id)
    &&& spec_member_chain_callee_needs_parens(a, id) == spec_member_chain_callee_needs_parens(
        b,
        id,
    )
    &&& spec_is_decorator_member_expression(a, id) == spec_is_decorator_member_expression(b, id)
}

/// What stands above a node agrees in both trees.
spec fn spec_same_above(a: AstView, b: AstView, id: NodeId) -> bool {
    &&& a.kind(id) == b.kind(id)
    &&& a.parent(id) == b.parent(id)
    &&& spec_is_argument(a, id) == spec_is_argument(b, id)
    &&& spec_is_new_callee(a, id) == spec_is_new_callee(b, id)
    &&& spec_is_class_extends(a, a.parent(id), a.span(id)) == spec_is_class_extends(
        b,
        b.parent(id),
        b.span(id),
    )
    &&& forall|mode: FirstInStatementMode|
        spec_is_first_in_statement(a, a.span(id), a.parent(id), mode)
            == spec_is_first_in_statement(b, b.span(id), b.parent(id), mode)
    &&& spec_is_in_for_initializer(a, id) == spec_is_in_for_initializer(b, id)
    &&& a.parent(id) matches Some(parent) ==> spec_for_of_left_at(a, a.span(id), parent)
        == spec_for_of_left_at(b, b.span(id), parent)
    &&& a.parent(id) matches Some(parent) ==> spec_inside_for_in(a, parent) == spec_inside_for_in(
        b,
        parent,
    )
}

/// The two trees agree on everything that the rules ask of the node `id`,
/// of its parent, and of the child on the left side of each.
proof fn lemma_same_surroundings(a: AstView, b: AstView, id: NodeId)
    requires
        a.wf(),
        b.wf(),
        spec_is_same_tree(a, b),
        id < a.len(),
    ensures
        spec_same_above(a, b, id),
        spec_left_side(a, id) matches Some(child) ==> spec_same_below(a, b, child),
        a.parent(id) matches Some(parent) ==> spec_same_above(a, b, parent),
        a.parent(id) matches Some(parent) ==> (spec_left_side(a, parent) matches Some(child)
            ==> spec_same_below(a, b, child)),
{
    lemma_same_above(a, b, id);
    lemma_same_left_side(a, b, id);
    match a.parent(id) {
        Some(parent) => {
            lemma_same_above(a, b, parent);
            lemma_same_left_side(a, b, parent);
        },
        None => {},
    }
}

/// The child on the left side of the node `id` agrees in both trees.
proof fn lemma_same_left_side(a: AstView, b: AstView, id: NodeId)
    requires
        a.wf(),
        b.wf(),
        spec_is_same_tree(a, b),
        id < a.len(),
    ensures
        spec_left_side(a, id) matches Some(child) ==> spec_same_below(a, b, child),
{
    match spec_left_side(a, id) {
        Some(child) => {
            assert(child < id);
            lemma_same_without_parentheses(a, b, child);
            lemma_same_left_edge(a, b, child);
            lemma_same_call_inside(a, b, child);
        },
        None => {},
    }
}

/// What stands above the node `id` agrees in both trees.
proof fn lemma_same_above(a: AstView, b: AstView, id: NodeId)
    requires
        a.wf(),
        b.wf(),
        spec_is_same_tree(a, b),
        id < a.len(),
    ensures
        spec_same_above(a, b, id),
{
    match a.parent(id) {
        Some(parent) => {
            lemma_same_first_in_statement(
                a,
                b,
                id,
                parent,
                FirstInStatementMode::ExpressionStatementOrArrow,
                true,
            );
            lemma_same_first_in_statement(
                a,
                b,
                id,
                parent,
                FirstInStatementMode::ExpressionOrExportDefault,
                true,
            );
            lemma_same_loop_head(a, b, id, parent);
            match a.kind(parent) {
                NodeKind::CallExpression { arguments, .. } => {
                    lemma_same_cover(a, b, arguments@, id);
                },
                NodeKind::NewExpression { arguments, .. } => {
                    lemma_same_cover(a, b, arguments@, id);
                },
                NodeKind::Class { super_class: Some(extended), .. } => {
                    lemma_same_without_parentheses(a, b, extended);
                },
                _ => {},
            }
        },
        None => {},
    }
}

/// The rule for `identifier` decides alike in both trees.
proof fn lemma_same_identifier(a: AstView, b: AstView, id: NodeId)
    requires
        a.wf(),
        b.wf(),
        spec_is_same_tree(a, b),
        id < a.len(),
    ensures
        spec_identifier_needs_parentheses(a, id) == spec_identifier_needs_parentheses(b, id),
{
    lemma_same_surroundings(a, b, id);
}

/// The rule for `numeric_literal` decides alike in both trees.
proof fn lemma_same_numeric_literal(a: AstView, b: AstView, id: NodeId)
    requires
        a.wf(),
        b.wf(),
        spec_is_same_tree(a, b),
        id < a.len(),
    ensures
        spec_numeric_literal_needs_parentheses(a, id) == spec_numeric_literal_needs_parentheses(b, id),
{
    lemma_same_surroundings(a, b, id);
}

/// The rule for `string_literal` decides alike in both trees.
proof fn lemma_same_string_literal(a: AstView, b: AstView, id: NodeId)
    requires
        a.wf(),
        b.wf(),
        spec_is_same_tree(a, b),
        id < a.len(),
    ensures
        spec_string_literal_needs_parentheses(a, id) == spec_string_literal_needs_parentheses(b, id),
{
    lemma_same_surroundings(a, b, id);
}

/// The rule for `object_expression` decides alike in both trees.
proof fn lemma_same_object_expression(a: AstView, b: AstView, id: NodeId)
    requires
        a.wf(),
        b.wf(),
        spec_is_same_tree(a, b),
        id < a.len(),
    ensures
        spec_object_expression_needs_parentheses(a, id) == spec_object_expression_needs_parentheses(b, id),
{
    lemma_same_surroundings(a, b, id);
}

/// The rule for `computed_member_expression` decides alike in both trees.
proof fn lemma_same_computed_member_expression(a: AstView, b: AstView, id: NodeId)
    requires
        a.wf(),
        b.wf(),
        spec_is_same_tree(a, b),
        id < a.len(),
    ensures
        spec_computed_member_expression_needs_parentheses(a, id) == spec_computed_member_expression_needs_parentheses(b, id),
{
    lemma_same_surroundings(a, b, id);
}

/// The rule for `static_member_expression` decides alike in both trees.
proof fn lemma_same_static_member_expression(a: AstView, b: AstView, id: NodeId)
    requires
        a.wf(),
        b.wf(),
        spec_is_same_tree(a, b),
        id < a.len(),
    ensures
        spec_static_member_expression_needs_parentheses(a, id) == spec_static_member_expression_needs_parentheses(b, id),
{
    lemma_same_surroundings(a, b, id);
}

/// The rule for `call_expression` decides alike in both trees.
proof fn lemma_same_call_expression(a: AstView, b: AstView, id: NodeId)
    requires
        a.wf(),
        b.wf(),
        spec_is_same_tree(a, b),
        id < a.len(),
    ensures
        spec_call_expression_needs_parentheses(a, id) == spec_call_expression_needs_parentheses(b, id),
{
    lemma_same_surroundings(a, b, id);
}

/// The rule for `new_expression` decides alike in both trees.
proof fn lemma_same_new_expression(a: AstView, b: AstView, id: NodeId)
    requires
        a.wf(),
        b.wf(),
        spec_is_same_tree(a, b),
        id < a.len(),
    ensures
        spec_new_expression_needs_parentheses(a, id) == spec_new_expression_needs_parentheses(b, id),
{
    lemma_same_surroundings(a, b, id);
}

/// The rule for `update_expression` decides alike in both trees.
proof fn lemma_same_update_expression(a: AstView, b: AstView, id: NodeId)
    requires
        a.wf(),
        b.wf(),
        spec_is_same_tree(a, b),
        id < a.len(),
    ensures
        spec_update_expression_needs_parentheses(a, id) == spec_update_expression_needs_parentheses(b, id),
{
    lemma_same_surroundings(a, b, id);
}

/// The rule for `unary_expression` decides alike in both trees.
proof fn lemma_same_unary_expression(a: AstView, b: AstView, id: NodeId)
    requires
        a.wf(),
        b.wf(),
        spec_is_same_tree(a, b),
        id < a.len(),
    ensures
        spec_unary_expression_needs_parentheses(a, id) == spec_unary_expression_needs_parentheses(b, id),
{
    lemma_same_surroundings(a, b, id);
}

/// The rule for `binary_expression` decides alike in both trees.
proof fn lemma_same_binary_expression(a: AstView, b: AstView, id: NodeId)
    requires
        a.wf(),
        b.wf(),
        spec_is_same_tree(a, b),
        id < a.len(),
    ensures
        spec_binary_expression_needs_parentheses(a, id) == spec_binary_expression_needs_parentheses(b, id),
{
    lemma_same_surroundings(a, b, id);
}

/// The rule for `logical_expression` decides alike in both trees.
proof fn lemma_same_logical_expression(a: AstView, b: AstView, id: NodeId)
    requires
        a.wf(),
        b.wf(),
        spec_is_same_tree(a, b),
        id < a.len(),
    ensures
        spec_logical_expression_needs_parentheses(a, id) == spec_logical_expression_needs_parentheses(b, id),
{
    lemma_same_surroundings(a, b, id);
}

/// The rule for `conditional_expression` decides alike in both trees.
proof fn lemma_same_conditional_expression(a: AstView, b: AstView, id: NodeId)
    requires
        a.wf(),
        b.wf(),
        spec_is_same_tree(a, b),
        id < a.len(),
    ensures
        spec_conditional_expression_needs_parentheses(a, id) == spec_conditional_expression_needs_parentheses(b, id),
{
    lemma_same_surroundings(a, b, id);
}

/// The rule for `function` decides alike in both trees.
proof fn lemma_same_function(a: AstView, b: AstView, id: NodeId)
    requires
        a.wf(),
        b.wf(),
        spec_is_same_tree(a, b),
        id < a.len(),
    ensures
        spec_function_needs_parentheses(a, id) == spec_function_needs_parentheses(b, id),
{
    lemma_same_surroundings(a, b, id);
}

/// The rule for `assignment_expression` decides alike in both trees.
proof fn lemma_same_assignment_expression(a: AstView, b: AstView, id: NodeId)
    requires
        a.wf(),
        b.wf(),
        spec_is_same_tree(a, b),
        id < a.len(),
    ensures
        spec_assignment_expression_needs_parentheses(a, id) == spec_assignment_expression_needs_parentheses(b, id),
{
    lemma_same_surroundings(a, b, id);
}

/// The rule for `sequence_expression` decides alike in both trees.
proof fn lemma_same_sequence_expression(a: AstView, b: AstView, id: NodeId)
    requires
        a.wf(),
        b.wf(),
        spec_is_same_tree(a, b),
        id < a.len(),
    ensures
        spec_sequence_expression_needs_parentheses(a, id) == spec_sequence_expression_needs_parentheses(b, id),
{
    lemma_same_surroundings(a, b, id);
}

/// The rule for `await_expression` decides alike in both trees.
proof fn lemma_same_await_expression(a: AstView, b: AstView, id: NodeId)
    requires
        a.wf(),
        b.wf(),
        spec_is_same_tree(a, b),
        id < a.len(),
    ensures
        spec_await_expression_needs_parentheses(a, id) == spec_await_expression_needs_parentheses(b, id),
{
    lemma_same_surroundings(a, b, id);
}

/// The rule for `chain_expression` decides alike in both trees.
proof fn lemma_same_chain_expression(a: AstView, b: AstView, id: NodeId)
    requires
        a.wf(),
        b.wf(),
        spec_is_same_tree(a, b),
        id < a.len(),
    ensures
        spec_chain_expression_needs_parentheses(a, id) == spec_chain_expression_needs_parentheses(b, id),
{
    lemma_same_surroundings(a, b, id);
}

/// The rule for `class` decides alike in both trees.
proof fn lemma_same_class(a: AstView, b: AstView, id: NodeId)
    requires
        a.wf(),
        b.wf(),
        spec_is_same_tree(a, b),
        id < a.len(),
    ensures
        spec_class_needs_parentheses(a, id) == spec_class_needs_parentheses(b, id),
{
    lemma_same_surroundings(a, b, id);
}

/// The rule for `arrow_function_expression` decides alike in both trees.
proof fn lemma_same_arrow_function_expression(a: AstView, b: AstView, id: NodeId)
    requires
        a.wf(),
        b.wf(),
        spec_is_same_tree(a, b),
        id < a.len(),
    ensures
        spec_arrow_function_expression_needs_parentheses(a, id) == spec_arrow_function_expression_needs_parentheses(b, id),
{
    lemma_same_surroundings(a, b, id);
}

/// The rule for `yield_expression` decides alike in both trees.
proof fn lemma_same_yield_expression(a: AstView, b: AstView, id: NodeId)
    requires
        a.wf(),
        b.wf(),
        spec_is_same_tree(a, b),
        id < a.len(),
    ensures
        spec_yield_expression_needs_parentheses(a, id) == spec_yield_expression_needs_parentheses(b, id),
{
    lemma_same_surroundings(a, b, id);
}

/// The rule for `ts_non_null_expression` decides alike in both trees.
proof fn lemma_same_ts_non_null_expression(a: AstView, b: AstView, id: NodeId)
    requires
        a.wf(),
        b.wf(),
        spec_is_same_tree(a, b),
        id < a.len(),
    ensures
        spec_ts_non_null_expression_needs_parentheses(a, id) == spec_ts_non_null_expression_needs_parentheses(b, id),
{
    lemma_same_surroundings(a, b, id);
}

/// The rule for `ts_instantiation_expression` decides alike in both trees.
proof fn lemma_same_ts_instantiation_expression(a: AstView, b: AstView, id: NodeId)
    requires
        a.wf(),
        b.wf(),
        spec_is_same_tree(a, b),
        id < a.len(),
    ensures
        spec_ts_instantiation_expression_needs_parentheses(a, id) == spec_ts_instantiation_expression_needs_parentheses(b, id),
{
    lemma_same_surroundings(a, b, id);
}

/// Printing twice changes nothing. Where a tree is read back from its
/// printed text as the same tree at other offsets, every node of it needs
/// parentheses in the one where it needs them in the other, so that the
/// text printed from it is the same again. This holds of every kind of node
/// but a JSX element or fragment, whose rule reads the lines of the source
/// text.
pub proof fn lemma_decision_survives_printing(
    a: AstView,
    b: AstView,
    id: NodeId,
    source: Seq<u8>,
    printed: Seq<u8>,
)
    requires
        a.wf(),
        b.wf(),
        spec_is_same_tree(a, b),
        id < a.len(),
        !(a.kind(id) is JSXElement),
        !(a.kind(id) is JSXFragment),
    ensures
        spec_needs_parentheses(a, id, source) == spec_needs_parentheses(b, id, printed),
{
    lemma_same_surroundings(a, b, id);
    lemma_same_identifier(a, b, id);
    lemma_same_numeric_literal(a, b, id);
    lemma_same_string_literal(a, b, id);
    lemma_same_object_expression(a, b, id);
    lemma_same_computed_member_expression(a, b, id);
    lemma_same_static_member_expression(a, b, id);
    lemma_same_call_expression(a, b, id);
    lemma_same_new_expression(a, b, id);
    lemma_same_update_expression(a, b, id);
    lemma_same_unary_expression(a, b, id);
    lemma_same_binary_expression(a, b, id);
    lemma_same_logical_expression(a, b, id);
    lemma_same_conditional_expression(a, b, id);
    lemma_same_function(a, b, id);
    lemma_same_assignment_expression(a, b, id);
    lemma_same_sequence_expression(a, b, id);
    lemma_same_await_expression(a, b, id);
    lemma_same_chain_expression(a, b, id);
    lemma_same_class(a, b, id);
    lemma_same_arrow_function_expression(a, b, id);
    lemma_same_yield_expression(a, b, id);
    lemma_same_ts_non_null_expression(a, b, id);
    lemma_same_ts_instantiation_expression(a, b, id);
}

/// The document of a node is the same again. Where a tree is read back
/// from its printed text as the same tree at other offsets, and the content
/// of a node is formatted as before, the document of the node with its
/// parentheses is the document that it was, and is printed as the same
/// text.
pub proof fn lemma_document_survives_printing(
    a: AstView,
    b: AstView,
    id: NodeId,
    source: Seq<u8>,
    printed: Seq<u8>,
    content: FormatElement,
    element: FormatElement,
    again: FormatElement,
    options: FormatOptions,
)
    requires
        a.wf(),
        b.wf(),
        spec_is_same_tree(a, b),
        id < a.len(),
        !(a.kind(id) is JSXElement),
        !(a.kind(id) is JSXFragment),
        spec_is_document_of(a, id, source, content, element),
        spec_is_document_of(b, id, printed, content, again),
    ensures
        spec_flat_text(again) == spec_flat_text(element),
        !spec_needs_parentheses(a, id, source) ==> again == element,
        spec_needs_parentheses(a, id, source) ==> spec_is_wrapped(again, content)
            && spec_is_wrapped(element, content) && spec_print(again, options) == spec_print(
            element,
            options,
        ),
{
    lemma_decision_survives_printing(a, b, id, source, printed);
    if spec_needs_parentheses(a, id, source) {
        lemma_wrapped_flat_text(element, content);
        lemma_wrapped_flat_text(again, content);
        lemma_wrapped_alike(element, again, content, options);
    }
}

} // verus!
