//! The rules of the arena and the grouping of operators: what the rules
//! decide of the binary and logical expressions of a tree is enough for the
//! printed text to read back as that tree.

use vstd::prelude::*;
use crate::ast::{lemma_child_links_to_parent, AstView, NodeId, NodeKind};
use crate::operator::BinaryLikeOperator;
use crate::parentheses::expression::{spec_binary_like_operator, spec_needs_parentheses};
use crate::parentheses::round_trip::{
    lemma_printed_tree_reads_back,
    spec_operand_tokens,
    spec_read_expression,
    spec_tokens,
    Grouping,
    Token,
};

verus! {

/// The operands of a binary or logical expression.
pub open spec fn spec_operands(kind: NodeKind) -> Option<(NodeId, NodeId)> {
    match kind {
        NodeKind::BinaryExpression { left, right, .. } => Some((left, right)),
        NodeKind::LogicalExpression { left, right, .. } => Some((left, right)),
        _ => None,
    }
}

/// The node is an operand as far as grouping goes: it is no binary or
/// logical expression.
pub open spec fn spec_is_plain_operand(tree: AstView, id: NodeId) -> bool {
    spec_binary_like_operator(tree.kind(id)) is None
}

/// The node `child` may stand as an operand of the operation `id` in a tree
/// of operators: it is a plain operand, or a tree of operators itself that
/// is no logical expression under a logical expression.
pub open spec fn spec_is_operand_tree(tree: AstView, id: NodeId, child: NodeId) -> bool
    decreases id, 0nat,
{
    child < id && (spec_is_plain_operand(tree, child) || (spec_is_operator_tree(tree, child) && !(
    tree.kind(id) is LogicalExpression && tree.kind(child) is LogicalExpression)))
}

/// The node is the top of a tree of operators: a binary expression other
/// than `in`, or a logical expression, whose two operands have different
/// spans and are plain operands or trees of operators themselves.
pub open spec fn spec_is_operator_tree(tree: AstView, id: NodeId) -> bool
    decreases id, 1nat,
{
    &&& spec_operands(tree.kind(id)) matches Some((left, right))
    &&& !(tree.kind(id) matches NodeKind::BinaryExpression { operator, .. } && operator.spec_is_in())
    &&& tree.span(left) != tree.span(right)
    &&& spec_is_operand_tree(tree, id, left)
    &&& spec_is_operand_tree(tree, id, right)
}

/// The grouping that the node stands for: an operation for a binary or
/// logical expression, an operand with the node's id for any other node.
pub open spec fn spec_grouping(tree: AstView, id: NodeId) -> Grouping
    decreases id,
{
    match (spec_binary_like_operator(tree.kind(id)), spec_operands(tree.kind(id))) {
        (Some(operator), Some((left, right))) if left < id && right < id => Grouping::Operation {
            operator,
            left: Box::new(spec_grouping(tree, left)),
            right: Box::new(spec_grouping(tree, right)),
        },
        _ => Grouping::Operand(id as nat),
    }
}

/// The tokens that the node is printed as: its operands and operators in
/// their order. A binary or logical expression among the operands stands in
/// parentheses where the rules of the arena say that it needs them.
pub open spec fn spec_printed(tree: AstView, id: NodeId, source: Seq<u8>) -> Seq<Token>
    decreases id, 1nat,
{
    match (spec_binary_like_operator(tree.kind(id)), spec_operands(tree.kind(id))) {
        (Some(operator), Some((left, right))) if left < id && right < id => spec_printed_operand(
            tree,
            id,
            left,
            source,
        ) + seq![Token::Operator(operator)] + spec_printed_operand(tree, id, right, source),
        _ => seq![Token::Operand(id as nat)],
    }
}

/// The tokens that the operand `child` of the operation `id` is printed as.
pub open spec fn spec_printed_operand(
    tree: AstView,
    id: NodeId,
    child: NodeId,
    source: Seq<u8>,
) -> Seq<Token>
    decreases id, 0nat,
{
    if child >= id {
        Seq::empty()
    } else if !spec_is_plain_operand(tree, child) && spec_needs_parentheses(tree, child, source) {
        seq![Token::Open] + spec_printed(tree, child, source) + seq![Token::Close]
    } else {
        spec_printed(tree, child, source)
    }
}

/// In a tree of operators the rules of the arena decide as the operand rule
/// does: the tokens printed from the arena are the tokens of the grouping.
pub proof fn lemma_printed_as_grouping(tree: AstView, id: NodeId, source: Seq<u8>)
    requires
        tree.wf(),
        id < tree.len(),
        spec_is_operator_tree(tree, id) || spec_is_plain_operand(tree, id),
    ensures
        spec_printed(tree, id, source) == spec_tokens(spec_grouping(tree, id)),
    decreases id,
{
    if spec_is_operator_tree(tree, id) {
        let operator = spec_binary_like_operator(tree.kind(id))->Some_0;
        let (left, right) = spec_operands(tree.kind(id))->Some_0;
        lemma_operand_printed_as_grouping(tree, id, left, false, source);
        lemma_operand_printed_as_grouping(tree, id, right, true, source);
    }
}

/// As [`lemma_printed_as_grouping`], for one operand of the operation `id`.
proof fn lemma_operand_printed_as_grouping(
    tree: AstView,
    id: NodeId,
    child: NodeId,
    is_right: bool,
    source: Seq<u8>,
)
    requires
        tree.wf(),
        id < tree.len(),
        spec_is_operator_tree(tree, id),
        spec_operands(tree.kind(id)) matches Some((left, right)) && child == (if is_right {
            right
        } else {
            left
        }),
    ensures
        spec_printed_operand(tree, id, child, source) == spec_operand_tokens(
            spec_binary_like_operator(tree.kind(id))->Some_0,
            spec_grouping(tree, child),
            is_right,
        ),
    decreases id, 0nat,
{
    let (left, right) = spec_operands(tree.kind(id))->Some_0;
    assert(spec_is_operand_tree(tree, id, child));
    assert(tree.kind(id).has_child(child));
    lemma_child_links_to_parent(tree, id, child);
    assert(tree.parent(child) == Some(id));
    assert(tree.parent_kind(child) == Some(tree.kind(id)));
    assert((tree.span(right) == tree.span(child)) == is_right);
    lemma_printed_as_grouping(tree, child, source);
}

/// The text printed from a tree of operators in the arena, with the
/// parentheses that the rules ask for, reads back as the grouping of that
/// tree.
pub proof fn lemma_operator_tree_reads_back(tree: AstView, id: NodeId, source: Seq<u8>)
    requires
        tree.wf(),
        id < tree.len(),
        spec_is_operator_tree(tree, id),
    ensures
        spec_read_expression(spec_printed(tree, id, source), 0) == Some(
            (spec_grouping(tree, id), Seq::<Token>::empty()),
        ),
{
    lemma_printed_as_grouping(tree, id, source);
    lemma_printed_tree_reads_back(spec_grouping(tree, id));
}

} // verus!
