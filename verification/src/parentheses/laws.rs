//! What holds of the parenthesization rules on every tree.

use vstd::prelude::*;
use crate::ast::{AstView, NodeId, NodeKind};
use crate::operator::{spec_should_flatten, BinaryLikeOperator, BinaryOperator};
use crate::parentheses::expression::{
    spec_first_in_statement_at,
    spec_for_of_left_at,
    spec_has_parenthesization_rule,
    spec_is_argument,
    spec_is_first_in_statement,
    spec_is_new_callee,
    spec_needs_parentheses,
    spec_operand_needs_parens,
    FirstInStatementMode,
};
use crate::parentheses::shape::spec_left_side;
use crate::span::Span;
use crate::utils::lemma_argument_parent_kinds;

verus! {

/// An operand that binds looser than its parent is always wrapped:
/// `(a + b) * c`.
pub proof fn lemma_looser_operand_is_wrapped(
    parent: BinaryLikeOperator,
    operator: BinaryLikeOperator,
    is_right: bool,
)
    requires
        parent.spec_precedence().spec_rank() > operator.spec_precedence().spec_rank(),
    ensures
        spec_operand_needs_parens(parent, operator, is_right),
{
}

/// The right operand of a right-associative operator is printed bare under
/// the same operator: `a ** b ** c` stays as it is.
pub proof fn lemma_right_operand_of_right_associative_is_bare(
    parent: BinaryLikeOperator,
    operator: BinaryLikeOperator,
)
    requires
        parent.spec_precedence() == operator.spec_precedence(),
        operator.spec_precedence().spec_is_right_associative(),
    ensures
        !spec_operand_needs_parens(parent, operator, true),
{
}

/// The left operand of an exponentiation that is itself an exponentiation
/// keeps its parentheses: `(a ** b) ** c`.
pub proof fn lemma_left_operand_of_exponent_is_wrapped()
    ensures
        spec_operand_needs_parens(
            BinaryLikeOperator::Binary(BinaryOperator::Exponential),
            BinaryLikeOperator::Binary(BinaryOperator::Exponential),
            false,
        ),
{
}

/// The right operand of a left-associative operator is wrapped under an
/// operator of the same precedence: `a - (b - c)`.
pub proof fn lemma_right_operand_of_left_associative_is_wrapped(
    parent: BinaryLikeOperator,
    operator: BinaryLikeOperator,
)
    requires
        parent.spec_precedence() == operator.spec_precedence(),
        operator.spec_precedence().spec_is_left_associative(),
    ensures
        spec_operand_needs_parens(parent, operator, true),
{
}

/// Under a bitwise or shift operator every binary-like operand is wrapped:
/// `(a * 3) >> 5`.
pub proof fn lemma_operand_of_bitwise_or_shift_is_wrapped(
    parent: BinaryLikeOperator,
    operator: BinaryLikeOperator,
    is_right: bool,
)
    requires
        parent.spec_precedence().spec_is_bitwise() || parent.spec_precedence().spec_is_shift(),
    ensures
        spec_operand_needs_parens(parent, operator, is_right),
{
}

/// A remainder is wrapped under `+` and under `-`, on either side:
/// `(a % 4) + 4`.
pub proof fn lemma_remainder_under_additive_is_wrapped(parent: BinaryOperator, is_right: bool)
    requires
        parent is Addition || parent is Subtraction,
    ensures
        spec_operand_needs_parens(
            BinaryLikeOperator::Binary(parent),
            BinaryLikeOperator::Binary(BinaryOperator::Remainder),
            is_right,
        ),
{
}

/// A left operand whose operator is flatten-compatible with its parent's is
/// printed bare, unless the parent is a bitwise operator: `a + b - c`,
/// `a && b && c`.
pub proof fn lemma_flat_left_operand_is_bare(
    parent: BinaryLikeOperator,
    operator: BinaryLikeOperator,
)
    requires
        spec_should_flatten(parent, operator),
        !parent.spec_precedence().spec_is_bitwise(),
    ensures
        !spec_operand_needs_parens(parent, operator, false),
{
}

/// A left operand that binds tighter than its parent is printed bare, unless
/// the parent is a bitwise or shift operator or the operand is a remainder:
/// `a * b + c`.
pub proof fn lemma_tighter_left_operand_is_bare(
    parent: BinaryLikeOperator,
    operator: BinaryLikeOperator,
)
    requires
        parent.spec_precedence().spec_rank() < operator.spec_precedence().spec_rank(),
        !parent.spec_precedence().spec_is_bitwise(),
        !parent.spec_precedence().spec_is_shift(),
        !operator.spec_is_remainder(),
    ensures
        !spec_operand_needs_parens(parent, operator, false),
{
}

/// Argument position takes precedence over every other rule: a node of any
/// kind that stands in the argument list of a call or of `new` is printed
/// bare, whatever else holds of it.
pub proof fn lemma_argument_position_wins(tree: AstView, id: NodeId, source: Seq<u8>)
    requires
        tree.wf(),
        id < tree.len(),
        spec_is_argument(tree, id),
    ensures
        !spec_needs_parentheses(tree, id, source),
{
    let parent = tree.parent(id)->Some_0;
    lemma_argument_parent_kinds(tree, tree.span(id), parent);
}

/// Under `new` the rules for member chains fire on the callee only: a member
/// access, an optional chain, a non-null assertion, a call or an `import`
/// that is a child of a `new` expression without being its callee is
/// printed bare, whatever calls it holds: `new Foo(a().b)`, `new Foo(a?.b)`.
pub proof fn lemma_only_the_callee_of_new_is_wrapped(tree: AstView, id: NodeId, source: Seq<u8>)
    requires
        tree.wf(),
        id < tree.len(),
        tree.parent_kind(id) matches Some(NodeKind::NewExpression { .. }),
        !spec_is_new_callee(tree, id),
        tree.kind(id) is StaticMemberExpression || tree.kind(id) is ComputedMemberExpression
            || tree.kind(id) is ChainExpression || tree.kind(id) is TSNonNullExpression
            || tree.kind(id) is CallExpression || tree.kind(id) is ImportExpression,
    ensures
        !spec_needs_parentheses(tree, id, source),
{
}

/// A call in a decorator is printed bare only where its callee is a chain
/// of dotted names: a call on a computed member access keeps its
/// parentheses, `@(a[0]())`.
pub proof fn lemma_call_on_computed_member_in_decorator_is_wrapped(
    tree: AstView,
    id: NodeId,
    source: Seq<u8>,
)
    requires
        tree.wf(),
        id < tree.len(),
        tree.kind(id) matches NodeKind::CallExpression { callee, .. } && tree.kind(callee)
            is ComputedMemberExpression,
        tree.parent_kind(id) matches Some(NodeKind::Decorator { .. }),
    ensures
        spec_needs_parentheses(tree, id, source),
{
}

/// A node of a kind that the rules do not cover is never wrapped. The kinds
/// that the rules cover are those of [`spec_has_parenthesization_rule`].
pub proof fn lemma_uncovered_kinds_are_bare(tree: AstView, id: NodeId, source: Seq<u8>)
    requires
        !spec_has_parenthesization_rule(tree.kind(id)),
    ensures
        !spec_needs_parentheses(tree, id, source),
{
}

/// A call that is the callee of `new` keeps its parentheses, so that the
/// arguments of `new` are not taken for the arguments of the call:
/// `new (a())()`.
pub proof fn lemma_call_as_new_callee_is_wrapped(tree: AstView, id: NodeId, source: Seq<u8>)
    requires
        tree.kind(id) is CallExpression,
        tree.parent_kind(id) matches Some(NodeKind::NewExpression { callee, .. }) && tree.span(
            callee,
        ) == tree.span(id),
    ensures
        spec_needs_parentheses(tree, id, source),
{
}

/// A computed member access directly in a decorator keeps its parentheses:
/// `@(decorators[0])`.
pub proof fn lemma_computed_member_in_decorator_is_wrapped(
    tree: AstView,
    id: NodeId,
    source: Seq<u8>,
)
    requires
        tree.kind(id) is ComputedMemberExpression,
        tree.parent_kind(id) matches Some(NodeKind::Decorator { .. }),
    ensures
        spec_needs_parentheses(tree, id, source),
{
}

/// A static member access directly in a decorator is printed bare:
/// `@decorators.first`.
pub proof fn lemma_static_member_in_decorator_is_bare(tree: AstView, id: NodeId, source: Seq<u8>)
    requires
        tree.kind(id) is StaticMemberExpression,
        tree.parent_kind(id) matches Some(NodeKind::Decorator { .. }),
    ensures
        !spec_needs_parentheses(tree, id, source),
{
}

/// An object literal that is a whole expression statement is wrapped, and so
/// is one that is the whole body of a concise arrow function:
/// `() => ({foo: 1})`.
pub proof fn lemma_object_statement_is_wrapped(tree: AstView, id: NodeId, source: Seq<u8>)
    requires
        tree.wf(),
        id < tree.len(),
        tree.kind(id) is ObjectExpression,
        tree.parent_kind(id) matches Some(NodeKind::ExpressionStatement { .. }),
    ensures
        spec_needs_parentheses(tree, id, source),
{
}

/// The walk to the start of a statement goes up through left sides only:
/// where an expression under `at` is first in its statement and `at` is no
/// statement itself, the expression is the child with which `at` starts,
/// and `at` is in turn first in its statement.
pub proof fn lemma_first_in_statement_is_on_the_left(
    tree: AstView,
    id: NodeId,
    at: NodeId,
    mode: FirstInStatementMode,
    first: bool,
)
    requires
        spec_first_in_statement_at(tree, tree.span(id), at, mode, first),
        !(tree.kind(at) is ExpressionStatement),
        !(tree.kind(at) is ExportDefaultDeclaration),
    ensures
        spec_left_side(tree, at) matches Some(child) && tree.span(child) == tree.span(id),
        spec_is_first_in_statement(tree, tree.span(at), tree.parent(at), mode),
{
    let above = tree.parent(at)->Some_0;
    lemma_first_at_any_step(tree, tree.span(at), above, mode);
}

/// What is first in its statement as a part of an expression is first in it
/// when the question is asked of it directly.
proof fn lemma_first_at_any_step(tree: AstView, span: Span, at: NodeId, mode: FirstInStatementMode)
    requires
        spec_first_in_statement_at(tree, span, at, mode, false),
    ensures
        spec_first_in_statement_at(tree, span, at, mode, true),
{
}

/// Nothing in argument position is first in its statement: the walk ends at
/// the call, which starts with its callee.
pub proof fn lemma_argument_is_not_first_in_statement(
    tree: AstView,
    id: NodeId,
    mode: FirstInStatementMode,
)
    requires
        tree.wf(),
        id < tree.len(),
        spec_is_argument(tree, id),
    ensures
        !spec_is_first_in_statement(tree, tree.span(id), tree.parent(id), mode),
{
    let parent = tree.parent(id)->Some_0;
    lemma_argument_parent_kinds(tree, tree.span(id), parent);
}

/// An object literal at the start of an argument is printed bare, since the
/// argument list, not the statement, begins with it: `f({}.x)`.
pub proof fn lemma_object_at_start_of_argument_is_bare(
    tree: AstView,
    id: NodeId,
    source: Seq<u8>,
)
    requires
        tree.wf(),
        id < tree.len(),
        tree.kind(id) is ObjectExpression,
        tree.parent(id) matches Some(member) && (tree.kind(member) matches NodeKind::StaticMemberExpression {
            object,
            ..
        } && tree.span(object) == tree.span(id)) && spec_is_argument(tree, member),
    ensures
        !spec_needs_parentheses(tree, id, source),
{
    let member = tree.parent(id)->Some_0;
    let call = tree.parent(member)->Some_0;
    let mode = FirstInStatementMode::ExpressionStatementOrArrow;
    lemma_argument_parent_kinds(tree, tree.span(member), call);
    assert(!spec_first_in_statement_at(tree, tree.span(member), call, mode, false));
    assert(!spec_first_in_statement_at(tree, tree.span(id), member, mode, true));
}

/// `let` at the start of a statement keeps its parentheses where `[`
/// follows it, since `let[` would open a declaration: `(let)[0] = 1`.
pub proof fn lemma_let_at_statement_start_is_wrapped(tree: AstView, id: NodeId, source: Seq<u8>)
    requires
        tree.wf(),
        id < tree.len(),
        tree.kind(id) matches NodeKind::Identifier { name } && name@ == "let"@,
        tree.parent(id) matches Some(member) && (tree.kind(member) matches NodeKind::ComputedMemberExpression {
            object,
            ..
        } && tree.span(object) == tree.span(id)),
        spec_is_first_in_statement(
            tree,
            tree.span(id),
            tree.parent(id),
            FirstInStatementMode::ExpressionOrExportDefault,
        ),
    ensures
        spec_needs_parentheses(tree, id, source),
{
    let member = tree.parent(id)->Some_0;
    reveal_strlit("let");
    reveal_strlit("async");
    assert("let"@.len() != "async"@.len());
    lemma_no_loop_head_on_the_way(
        tree,
        id,
        tree.span(id),
        member,
        FirstInStatementMode::ExpressionOrExportDefault,
        true,
    );
    lemma_object_of_member_is_no_argument(tree, id);
}

/// A node whose parent is a member access is no argument.
proof fn lemma_object_of_member_is_no_argument(tree: AstView, id: NodeId)
    requires
        tree.parent_kind(id) matches Some(NodeKind::ComputedMemberExpression { .. }),
    ensures
        !spec_is_argument(tree, id),
{
}

/// On the way up from the start of a statement to the statement there is no
/// head of a `for-of` loop.
proof fn lemma_no_loop_head_on_the_way(
    tree: AstView,
    id: NodeId,
    span: Span,
    at: NodeId,
    mode: FirstInStatementMode,
    first: bool,
)
    requires
        spec_first_in_statement_at(tree, span, at, mode, first),
        !(tree.kind(at) is ExportDefaultDeclaration),
    ensures
        spec_for_of_left_at(tree, tree.span(id), at) is None,
    decreases tree.len() - at,
{
    match tree.kind(at) {
        NodeKind::ExpressionStatement { .. } => {},
        _ => {
            match tree.parent(at) {
                Some(above) => {
                    lemma_no_loop_head_on_the_way(tree, id, tree.span(at), above, mode, false);
                },
                None => {},
            }
        },
    }
}

/// What is decided of a node depends on the source text only for JSX
/// elements and fragments.
pub proof fn lemma_source_matters_for_jsx_only(
    tree: AstView,
    id: NodeId,
    source: Seq<u8>,
    other: Seq<u8>,
)
    requires
        !(tree.kind(id) is JSXElement),
        !(tree.kind(id) is JSXFragment),
    ensures
        spec_needs_parentheses(tree, id, source) == spec_needs_parentheses(tree, id, other),
{
}

/// What the grammar alone asks for: an operand must be wrapped where it
/// binds looser than its parent, and at equal precedence where it stands on
/// the side from which the operator does not group. Without these
/// parentheses the text would parse into another tree.
pub open spec fn spec_grouping_requires_parens(
    parent: BinaryLikeOperator,
    operator: BinaryLikeOperator,
    is_right: bool,
) -> bool {
    let outer = parent.spec_precedence();
    let inner = operator.spec_precedence();
    inner.spec_rank() < outer.spec_rank() || (inner == outer && is_right
        != inner.spec_is_right_associative())
}

/// The rule never leaves out parentheses that the grammar asks for: the
/// printed text groups as the tree does.
pub proof fn lemma_required_parentheses_are_kept(
    parent: BinaryLikeOperator,
    operator: BinaryLikeOperator,
    is_right: bool,
)
    requires
        spec_grouping_requires_parens(parent, operator, is_right),
    ensures
        spec_operand_needs_parens(parent, operator, is_right),
{
}

/// Where the rule adds parentheses that the grammar does not ask for, it
/// does so for the reader: under a bitwise or shift operator, around a
/// remainder under `+` or `-`, or between two operators of one precedence
/// that are not flatten-compatible.
pub proof fn lemma_extra_parentheses_are_for_clarity(
    parent: BinaryLikeOperator,
    operator: BinaryLikeOperator,
    is_right: bool,
)
    requires
        spec_operand_needs_parens(parent, operator, is_right),
        !spec_grouping_requires_parens(parent, operator, is_right),
    ensures
        parent.spec_precedence().spec_is_bitwise() || parent.spec_precedence().spec_is_shift() || (
        operator.spec_is_remainder() && parent.spec_precedence().spec_is_additive()) || (
        parent.spec_precedence() == operator.spec_precedence() && !spec_should_flatten(
            parent,
            operator,
        )),
{
}

/// A logical expression directly under a logical expression with another
/// operator is always wrapped: `??` may not be mixed with `||` and `&&`
/// without parentheses, and `&&` under `||` reads better with them.
pub proof fn lemma_mixed_logical_operators_are_wrapped(tree: AstView, id: NodeId, source: Seq<u8>)
    requires
        tree.kind(id) matches NodeKind::LogicalExpression { operator, .. } && (tree.parent_kind(
            id,
        ) matches Some(NodeKind::LogicalExpression { operator: outer, .. }) && outer != operator),
    ensures
        spec_needs_parentheses(tree, id, source),
{
}

/// What is decided of a binary expression under a binary expression depends
/// on the two operators and on the side alone.
pub proof fn lemma_binary_under_binary(tree: AstView, id: NodeId, source: Seq<u8>)
    requires
        tree.kind(id) matches NodeKind::BinaryExpression { operator, .. } && !operator.spec_is_in(),
        tree.parent_kind(id) matches Some(NodeKind::BinaryExpression { .. }),
    ensures
        spec_needs_parentheses(tree, id, source) == spec_operand_needs_parens(
            BinaryLikeOperator::Binary(tree.parent_kind(id)->Some_0->BinaryExpression_operator),
            BinaryLikeOperator::Binary(tree.kind(id)->BinaryExpression_operator),
            tree.span(tree.parent_kind(id)->Some_0->BinaryExpression_right) == tree.span(id),
        ),
{
}

/// A logical expression directly under a logical expression with the same
/// operator is printed bare on either side: `a || (b || c)` is printed as
/// `a || b || c`. The text then groups from the left where the tree grouped
/// from the right; the operators being associative, the value is the same.
pub proof fn lemma_same_logical_operator_is_bare(tree: AstView, id: NodeId, source: Seq<u8>)
    requires
        tree.kind(id) matches NodeKind::LogicalExpression { operator, .. } && (tree.parent_kind(
            id,
        ) matches Some(NodeKind::LogicalExpression { operator: outer, .. }) && outer == operator),
    ensures
        !spec_needs_parentheses(tree, id, source),
{
}

} // verus!
