//! The parenthesization rules of expressions.
//!
//! Every rule is a function of the node, of the chain of its parents and, for
//! one rule on JSX, of the source text. A node in argument position is
//! recognised first, so that the rules for callees never fire on arguments.

use vstd::prelude::*;
use crate::ast::{Ast, AstView, NodeId, NodeKind};
use crate::operator::{
    should_flatten,
    spec_should_flatten,
    BinaryLikeOperator,
    BinaryOperator,
    UnaryOperator,
    UpdateOperator,
};
use crate::parentheses::shape::{
    is_class_extends,
    is_decorator_member_expression,
    left_edge_has_call,
    left_side,
    leftmost,
    member_chain_callee_needs_parens,
    member_has_call_object,
    spec_is_class_extends,
    spec_is_decorator_member_expression,
    spec_left_edge_has_call,
    spec_left_side,
    spec_leftmost,
    spec_member_chain_callee_needs_parens,
    spec_member_has_call_object,
    spec_without_parentheses,
    without_parentheses,
};
use crate::span::Span;
use crate::text::str_equals;
use crate::utils::{is_node_argument, spec_is_node_argument};

verus! {

/// Which statements count as the start of a statement when asking whether an
/// expression begins one.
#[derive(Clone, Copy, Debug, PartialEq, Eq, Structural)]
pub enum FirstInStatementMode {
    /// An expression statement, and the body of a concise arrow function.
    ExpressionStatementOrArrow,
    /// An expression statement, and an `export default` declaration.
    ExpressionOrExportDefault,
}

/// The node stands in argument position under its parent.
pub open spec fn spec_is_argument(tree: AstView, id: NodeId) -> bool {
    tree.parent(id) matches Some(parent) && spec_is_node_argument(tree, tree.span(id), parent)
}

/// Whether the node stands in argument position under its parent.
pub fn is_argument(ast: &Ast, id: NodeId) -> (argument: bool)
    requires
        ast@.wf(),
        id < ast@.len(),
    ensures
        argument == spec_is_argument(ast@, id),
{
    match ast.parent(id) {
        Some(parent) => is_node_argument(ast, ast.span(id), parent),
        None => false,
    }
}

/// Whether a binary-like operand with the operator `operator` needs
/// parentheses directly under a binary-like expression with the operator
/// `parent`, as its left operand or, where `is_right` holds, as its right one.
///
/// - A parent that binds tighter always forces parentheses.
/// - At equal precedence the operand on the associating side stays bare only
///   if the two operators are flatten-compatible; the operand on the other
///   side is wrapped (`a - (b - c)`, `(a ** b) ** c`), and the right operand
///   of a right-associative operator never is (`a ** b ** c`).
/// - Under a bitwise or shift operator every operand is wrapped.
/// - A remainder under `+` or `-` is wrapped although it binds tighter.
pub open spec fn spec_operand_needs_parens(
    parent: BinaryLikeOperator,
    operator: BinaryLikeOperator,
    is_right: bool,
) -> bool {
    let outer = parent.spec_precedence();
    let inner = operator.spec_precedence();
    if outer.spec_rank() > inner.spec_rank() {
        true
    } else if outer == inner && is_right {
        !inner.spec_is_right_associative()
    } else if outer.spec_is_bitwise() || outer.spec_is_shift() {
        true
    } else if outer.spec_rank() < inner.spec_rank() && operator.spec_is_remainder() {
        outer.spec_is_additive()
    } else {
        outer == inner && !spec_should_flatten(parent, operator)
    }
}

/// Decides parentheses for a binary-like operand under a binary-like parent.
pub fn operand_needs_parens(
    parent: BinaryLikeOperator,
    operator: BinaryLikeOperator,
    is_right: bool,
) -> (needed: bool)
    ensures
        needed == spec_operand_needs_parens(parent, operator, is_right),
{
    let outer = parent.precedence();
    let inner = operator.precedence();
    if outer.rank() > inner.rank() {
        return true;
    }
    if is_right && outer == inner {
        return !inner.is_right_associative();
    }
    if outer.is_bitwise() || outer.is_shift() {
        return true;
    }
    if outer.rank() < inner.rank() && operator.is_remainder() {
        return outer.is_additive();
    }
    outer == inner && !should_flatten(parent, operator)
}

/// The operator of a binary or logical expression; `None` for other nodes.
pub open spec fn spec_binary_like_operator(kind: NodeKind) -> Option<BinaryLikeOperator> {
    match kind {
        NodeKind::BinaryExpression { operator, .. } => Some(BinaryLikeOperator::Binary(operator)),
        NodeKind::LogicalExpression { operator, .. } => Some(BinaryLikeOperator::Logical(operator)),
        _ => None,
    }
}

/// The operator of a binary or logical expression.
pub fn binary_like_operator(kind: &NodeKind) -> (operator: Option<BinaryLikeOperator>)
    ensures
        operator == spec_binary_like_operator(*kind),
{
    match kind {
        NodeKind::BinaryExpression { operator, .. } => Some(BinaryLikeOperator::Binary(*operator)),
        NodeKind::LogicalExpression { operator, .. } => Some(
            BinaryLikeOperator::Logical(*operator),
        ),
        _ => None,
    }
}

/// Parentheses for a binary or logical expression, by its parent:
///
/// - always under a cast, a unary or `await` expression, a non-null
///   assertion, a spread, a tagged template, an optional chain, and as the
///   object of a static member access;
/// - as the callee of a call or of `new`, never as an argument;
/// - as the object of a computed member access;
/// - inside the `extends` clause of a class;
/// - under another binary or logical expression by
///   [`spec_operand_needs_parens`];
/// - nowhere else.
pub open spec fn spec_binary_like_needs_parens(tree: AstView, id: NodeId) -> bool {
    match (spec_binary_like_operator(tree.kind(id)), tree.parent(id)) {
        (Some(operator), Some(parent)) => match tree.kind(parent) {
            NodeKind::TSAsExpression { .. }
            | NodeKind::TSSatisfiesExpression { .. }
            | NodeKind::TSTypeAssertion { .. }
            | NodeKind::UnaryExpression { .. }
            | NodeKind::AwaitExpression { .. }
            | NodeKind::TSNonNullExpression { .. }
            | NodeKind::SpreadElement { .. }
            | NodeKind::JSXSpreadAttribute { .. }
            | NodeKind::StaticMemberExpression { .. }
            | NodeKind::TaggedTemplateExpression { .. }
            | NodeKind::ChainExpression { .. } => true,
            NodeKind::CallExpression { callee, .. }
            | NodeKind::NewExpression { callee, .. } => tree.span(callee) == tree.span(id),
            NodeKind::ComputedMemberExpression { object, .. } => tree.span(object) == tree.span(id),
            NodeKind::Class { super_class, .. } => super_class matches Some(extended)
                && tree.span(extended).covers(tree.span(id)),
            NodeKind::BinaryExpression { operator: outer, right, .. } => spec_operand_needs_parens(
                BinaryLikeOperator::Binary(outer),
                operator,
                tree.span(right) == tree.span(id),
            ),
            NodeKind::LogicalExpression { operator: outer, right, .. } => spec_operand_needs_parens(
                BinaryLikeOperator::Logical(outer),
                operator,
                tree.span(right) == tree.span(id),
            ),
            _ => false,
        },
        _ => false,
    }
}

/// Decides parentheses for a binary or logical expression by its parent.
pub fn binary_like_needs_parens(ast: &Ast, id: NodeId) -> (needed: bool)
    requires
        ast@.wf(),
        id < ast@.len(),
    ensures
        needed == spec_binary_like_needs_parens(ast@, id),
{
    let operator = match binary_like_operator(ast.kind(id)) {
        Some(operator) => operator,
        None => {
            return false;
        },
    };
    let parent = match ast.parent(id) {
        Some(parent) => parent,
        None => {
            return false;
        },
    };
    let span = ast.span(id);
    match ast.kind(parent) {
        NodeKind::TSAsExpression { .. }
        | NodeKind::TSSatisfiesExpression { .. }
        | NodeKind::TSTypeAssertion { .. }
        | NodeKind::UnaryExpression { .. }
        | NodeKind::AwaitExpression { .. }
        | NodeKind::TSNonNullExpression { .. }
        | NodeKind::SpreadElement { .. }
        | NodeKind::JSXSpreadAttribute { .. }
        | NodeKind::StaticMemberExpression { .. }
        | NodeKind::TaggedTemplateExpression { .. }
        | NodeKind::ChainExpression { .. } => true,
        NodeKind::CallExpression { callee, .. } | NodeKind::NewExpression { callee, .. } => {
            ast.span(*callee) == span
        },
        NodeKind::ComputedMemberExpression { object, .. } => ast.span(*object) == span,
        NodeKind::Class { super_class, .. } => match super_class {
            Some(extended) => ast.span(*extended).contains_inclusive(span),
            None => false,
        },
        NodeKind::BinaryExpression { operator: outer, right, .. } => operand_needs_parens(
            BinaryLikeOperator::Binary(*outer),
            operator,
            ast.span(*right) == span,
        ),
        NodeKind::LogicalExpression { operator: outer, right, .. } => operand_needs_parens(
            BinaryLikeOperator::Logical(*outer),
            operator,
            ast.span(*right) == span,
        ),
        _ => false,
    }
}

/// Parentheses for an expression that binds no tighter than an update
/// expression, where it stands on the left-hand side of its parent: under a
/// non-null assertion, as the callee of a call or of `new`, as the object
/// of a member access or the tag of a template, in an `extends` clause, and
/// as the index of a computed member access that is not optional. Never as
/// an argument.
pub open spec fn spec_update_or_lower_expression_needs_parens(
    tree: AstView,
    span: Span,
    parent: Option<NodeId>,
) -> bool {
    spec_is_class_extends(tree, parent, span) || (parent matches Some(p) && match tree.kind(p) {
        NodeKind::TSNonNullExpression { .. }
        | NodeKind::StaticMemberExpression { .. }
        | NodeKind::TaggedTemplateExpression { .. } => true,
        NodeKind::CallExpression { callee, .. }
        | NodeKind::NewExpression { callee, .. } => tree.span(callee) == span,
        NodeKind::ComputedMemberExpression { expression, optional, .. } => !(tree.span(expression)
            == span && optional),
        _ => false,
    })
}

/// Decides parentheses for an expression that binds no tighter than an
/// update expression.
pub fn update_or_lower_expression_needs_parens(ast: &Ast, span: Span, parent: Option<NodeId>) -> (needed:
    bool)
    requires
        ast@.wf(),
        parent matches Some(p) ==> p < ast@.len(),
    ensures
        needed == spec_update_or_lower_expression_needs_parens(ast@, span, parent),
{
    if let Some(p) = parent {
        match ast.kind(p) {
            NodeKind::TSNonNullExpression { .. }
            | NodeKind::StaticMemberExpression { .. }
            | NodeKind::TaggedTemplateExpression { .. } => {
                return true;
            },
            NodeKind::CallExpression { callee, .. } | NodeKind::NewExpression { callee, .. } => {
                return ast.span(*callee) == span;
            },
            _ => {},
        }
    }
    if is_class_extends(ast, parent, span) {
        return true;
    }
    if let Some(p) = parent {
        if let NodeKind::ComputedMemberExpression { expression, optional, .. } = ast.kind(p) {
            if ast.span(*expression) == span {
                if *optional {
                    return false;
                }
                return true;
            }
            return true;
        }
    }
    false
}

/// Parentheses for an update or unary expression that no rule of its own
/// kind has decided: as the base of an exponentiation, and wherever an
/// expression below update level needs them.
pub open spec fn spec_unary_like_expression_needs_parens(tree: AstView, id: NodeId) -> bool {
    match tree.parent_kind(id) {
        Some(NodeKind::BinaryExpression { operator, left, .. }) => operator is Exponential
            && tree.span(left) == tree.span(id),
        _ => spec_update_or_lower_expression_needs_parens(tree, tree.span(id), tree.parent(id)),
    }
}

/// Decides parentheses for an update or unary expression by its parent.
pub fn unary_like_expression_needs_parens(ast: &Ast, id: NodeId) -> (needed: bool)
    requires
        ast@.wf(),
        id < ast@.len(),
    ensures
        needed == spec_unary_like_expression_needs_parens(ast@, id),
{
    match ast.parent_kind(id) {
        Some(NodeKind::BinaryExpression { operator, left, .. }) => {
            matches!(operator, BinaryOperator::Exponential) && ast.span(*left) == ast.span(id)
        },
        _ => update_or_lower_expression_needs_parens(ast, ast.span(id), ast.parent(id)),
    }
}

/// Parentheses for an `await` or `yield` expression: under a unary, cast,
/// spread, binary or logical expression; as the test of a conditional
/// expression; and wherever an expression below update level needs them.
pub open spec fn spec_await_or_yield_needs_parens(
    tree: AstView,
    span: Span,
    parent: Option<NodeId>,
) -> bool {
    match parent {
        Some(p) => match tree.kind(p) {
            NodeKind::UnaryExpression { .. }
            | NodeKind::TSAsExpression { .. }
            | NodeKind::TSSatisfiesExpression { .. }
            | NodeKind::SpreadElement { .. }
            | NodeKind::LogicalExpression { .. }
            | NodeKind::BinaryExpression { .. } => true,
            NodeKind::ConditionalExpression { test, .. } => tree.span(
                spec_without_parentheses(tree, test),
            ) == span,
            _ => spec_update_or_lower_expression_needs_parens(tree, span, parent),
        },
        None => spec_update_or_lower_expression_needs_parens(tree, span, parent),
    }
}

/// Decides parentheses for an `await` or `yield` expression by its parent.
pub fn await_or_yield_needs_parens(ast: &Ast, span: Span, parent: Option<NodeId>) -> (needed: bool)
    requires
        ast@.wf(),
        parent matches Some(p) ==> p < ast@.len(),
    ensures
        needed == spec_await_or_yield_needs_parens(ast@, span, parent),
{
    if let Some(p) = parent {
        match ast.kind(p) {
            NodeKind::UnaryExpression { .. }
            | NodeKind::TSAsExpression { .. }
            | NodeKind::TSSatisfiesExpression { .. }
            | NodeKind::SpreadElement { .. }
            | NodeKind::LogicalExpression { .. }
            | NodeKind::BinaryExpression { .. } => {
                return true;
            },
            NodeKind::ConditionalExpression { test, .. } => {
                let inner = without_parentheses(ast, *test);
                return ast.span(inner) == span;
            },
            _ => {},
        }
    }
    update_or_lower_expression_needs_parens(ast, span, parent)
}

/// Parentheses for an `as` or `satisfies` expression: as the object of a
/// member access and as the target of an assignment.
pub open spec fn spec_ts_as_or_satisfies_needs_parens(parent: Option<NodeKind>) -> bool {
    parent matches Some(kind) && (kind is ComputedMemberExpression || kind is StaticMemberExpression
        || kind is PrivateFieldExpression || kind is AssignmentExpression
        || kind is AssignmentTargetWithDefault)
}

/// Decides parentheses for an `as` or `satisfies` expression by its parent.
pub fn ts_as_or_satisfies_needs_parens(parent: Option<&NodeKind>) -> (needed: bool)
    ensures
        needed == spec_ts_as_or_satisfies_needs_parens(
            match parent {
                Some(kind) => Some(*kind),
                None => None,
            },
        ),
{
    match parent {
        Some(NodeKind::ComputedMemberExpression { .. })
        | Some(NodeKind::StaticMemberExpression { .. })
        | Some(NodeKind::PrivateFieldExpression { .. })
        | Some(NodeKind::AssignmentExpression { .. })
        | Some(NodeKind::AssignmentTargetWithDefault { .. }) => true,
        _ => false,
    }
}

/// The statement is the body of a concise arrow function: the arrow stands
/// two levels above it and has an expression for its body.
pub open spec fn spec_is_concise_arrow_body(tree: AstView, statement: NodeId) -> bool {
    &&& tree.parent(statement) matches Some(body)
    &&& tree.parent_kind(body) matches Some(NodeKind::ArrowFunctionExpression { expression, .. })
    &&& expression
}

/// Whether the statement is the body of a concise arrow function.
pub fn is_concise_arrow_body(ast: &Ast, statement: NodeId) -> (concise: bool)
    requires
        ast@.wf(),
        statement < ast@.len(),
    ensures
        concise == spec_is_concise_arrow_body(ast@, statement),
{
    if let Some(body) = ast.parent(statement) {
        if let Some(NodeKind::ArrowFunctionExpression { expression, .. }) = ast.parent_kind(body) {
            return *expression;
        }
    }
    false
}

/// Whether an expression with the span `span`, standing directly under `at`,
/// is the first thing of its statement. `first` says that `span` is the span
/// of the expression the question was asked of, not of one of its ancestors.
///
/// The walk goes up for as long as the expression is the child with which
/// its parent starts ([`spec_left_side`]): the object of a member access but
/// not its property, the callee of a call but none of its arguments, the tag
/// of a template but nothing inside the template. It ends with `false` at
/// the first parent that starts otherwise, with `true` at an expression
/// statement, and under
/// [`FirstInStatementMode::ExpressionOrExportDefault`] at an `export default`
/// that holds the expression itself. The body of a concise arrow function
/// counts as a statement only under
/// [`FirstInStatementMode::ExpressionStatementOrArrow`], and not when the
/// body is a sequence or an assignment of which the expression is a proper
/// part, since the body then carries the parentheses.
pub open spec fn spec_first_in_statement_at(
    tree: AstView,
    span: Span,
    at: NodeId,
    mode: FirstInStatementMode,
    first: bool,
) -> bool
    decreases tree.len() - at,
{
    let leftmost_of_parent = spec_left_side(tree, at) matches Some(child) && tree.span(child)
        == span;
    match tree.kind(at) {
        NodeKind::ExpressionStatement { expression } => if spec_is_concise_arrow_body(tree, at) {
            mode is ExpressionStatementOrArrow && (first || !(tree.kind(expression) is SequenceExpression
                || tree.kind(expression) is AssignmentExpression))
        } else {
            true
        },
        NodeKind::ExportDefaultDeclaration { .. } => mode is ExpressionOrExportDefault && first,
        _ => leftmost_of_parent && match tree.parent(at) {
            Some(above) => spec_first_in_statement_at(tree, tree.span(at), above, mode, false),
            None => false,
        },
    }
}

/// Whether an expression with the span `span` and the parent `parent` is the
/// first thing of its statement: see [`spec_first_in_statement_at`].
pub open spec fn spec_is_first_in_statement(
    tree: AstView,
    span: Span,
    parent: Option<NodeId>,
    mode: FirstInStatementMode,
) -> bool {
    parent matches Some(at) && spec_first_in_statement_at(tree, span, at, mode, true)
}

/// Whether an expression with the span `span` and the parent `parent` is the
/// first thing of its statement.
pub fn is_first_in_statement(
    ast: &Ast,
    span: Span,
    parent: Option<NodeId>,
    mode: FirstInStatementMode,
) -> (first: bool)
    requires
        ast@.wf(),
        parent matches Some(p) ==> p < ast@.len(),
    ensures
        first == spec_is_first_in_statement(ast@, span, parent, mode),
{
    let mut at = match parent {
        Some(at) => at,
        None => {
            return false;
        },
    };
    let mut current_span = span;
    let mut is_first_iteration = true;
    loop
        invariant
            ast@.wf(),
            at < ast@.len(),
            spec_is_first_in_statement(ast@, span, parent, mode) == spec_first_in_statement_at(
                ast@,
                current_span,
                at,
                mode,
                is_first_iteration,
            ),
        decreases ast@.len() - at,
    {
        match ast.kind(at) {
            NodeKind::ExpressionStatement { expression } => {
                if is_concise_arrow_body(ast, at) {
                    if mode == FirstInStatementMode::ExpressionStatementOrArrow {
                        if !is_first_iteration {
                            match ast.kind(*expression) {
                                NodeKind::SequenceExpression { .. }
                                | NodeKind::AssignmentExpression { .. } => {
                                    return false;
                                },
                                _ => {},
                            }
                        }
                    } else {
                        return false;
                    }
                }
                return true;
            },
            NodeKind::ExportDefaultDeclaration { .. } => {
                return mode == FirstInStatementMode::ExpressionOrExportDefault && is_first_iteration;
            },
            _ => match left_side(ast, at) {
                Some(child) => {
                    if ast.span(child) != current_span {
                        return false;
                    }
                },
                None => {
                    return false;
                },
            },
        }
        current_span = ast.span(at);
        match ast.parent(at) {
            Some(above) => {
                at = above;
            },
            None => {
                return false;
            },
        }
        is_first_iteration = false;
    }
}

/// Whether an expression with the span `span`, standing under `at`, lies in
/// the initializer of a `for` statement or in the left side of a `for-in`
/// statement. The walk up ends without success at an expression statement,
/// unless that is the body of an arrow function, which is looked through.
pub open spec fn spec_in_for_initializer_at(tree: AstView, span: Span, at: NodeId) -> bool
    decreases tree.len() - at,
{
    let above = match tree.parent(at) {
        Some(above) => spec_in_for_initializer_at(tree, span, above),
        None => false,
    };
    match tree.kind(at) {
        NodeKind::ExpressionStatement { .. } => match tree.parent(at) {
            Some(body) => tree.kind(body) is FunctionBody && match tree.parent(body) {
                Some(arrow) => tree.kind(arrow) is ArrowFunctionExpression
                    && spec_in_for_initializer_at(tree, span, arrow),
                None => false,
            },
            None => false,
        },
        NodeKind::ForStatement { init, .. } => init matches Some(i) && tree.span(i).covers(span),
        NodeKind::ForInStatement { left, .. } => tree.span(left).covers(span),
        NodeKind::Program { .. } => false,
        _ => above,
    }
}

/// An `in` expression in the head of a `for` loop would end the head early:
/// whether `id` lies in the initializer of a `for` statement or in the left
/// side of a `for-in` statement.
pub open spec fn spec_is_in_for_initializer(tree: AstView, id: NodeId) -> bool {
    tree.parent(id) matches Some(at) && spec_in_for_initializer_at(tree, tree.span(id), at)
}

/// Whether `id` lies in the initializer of a `for` statement or in the left
/// side of a `for-in` statement.
pub fn is_in_for_initializer(ast: &Ast, id: NodeId) -> (inside: bool)
    requires
        ast@.wf(),
        id < ast@.len(),
    ensures
        inside == spec_is_in_for_initializer(ast@, id),
{
    let span = ast.span(id);
    let mut at = match ast.parent(id) {
        Some(at) => at,
        None => {
            return false;
        },
    };
    loop
        invariant
            ast@.wf(),
            at < ast@.len(),
            spec_is_in_for_initializer(ast@, id) == spec_in_for_initializer_at(ast@, span, at),
        decreases ast@.len() - at,
    {
        match ast.kind(at) {
            NodeKind::ExpressionStatement { .. } => {
                if let Some(body) = ast.parent(at) {
                    if let NodeKind::FunctionBody { .. } = ast.kind(body) {
                        if let Some(arrow) = ast.parent(body) {
                            if let NodeKind::ArrowFunctionExpression { .. } = ast.kind(arrow) {
                                at = arrow;
                                continue ;
                            }
                        }
                    }
                }
                return false;
            },
            NodeKind::ForStatement { init, .. } => {
                return match init {
                    Some(i) => ast.span(*i).contains_inclusive(span),
                    None => false,
                };
            },
            NodeKind::ForInStatement { left, .. } => {
                return ast.span(*left).contains_inclusive(span);
            },
            NodeKind::Program { .. } => {
                return false;
            },
            _ => {},
        }
        match ast.parent(at) {
            Some(above) => {
                at = above;
            },
            None => {
                return false;
            },
        }
    }
}

/// Looking up from `at` for the head of a `for-of` statement: `Some(inside)`
/// where one is found before a statement ends the search, with `inside`
/// saying that `span` lies in its left side; `None` where none is found.
pub open spec fn spec_for_of_left_at(tree: AstView, span: Span, at: NodeId) -> Option<bool>
    decreases tree.len() - at,
{
    match tree.kind(at) {
        NodeKind::Program { .. } | NodeKind::ExpressionStatement { .. } => None,
        NodeKind::ForOfStatement { left, .. } => Some(tree.span(left).covers(span)),
        _ => match tree.parent(at) {
            Some(above) => spec_for_of_left_at(tree, span, above),
            None => None,
        },
    }
}

/// Looks up from `start` for the head of a `for-of` statement.
fn for_of_left_at(ast: &Ast, span: Span, start: NodeId) -> (found: Option<bool>)
    requires
        ast@.wf(),
        start < ast@.len(),
    ensures
        found == spec_for_of_left_at(ast@, span, start),
{
    let mut at = start;
    loop
        invariant
            ast@.wf(),
            at < ast@.len(),
            spec_for_of_left_at(ast@, span, start) == spec_for_of_left_at(ast@, span, at),
        decreases ast@.len() - at,
    {
        match ast.kind(at) {
            NodeKind::Program { .. } | NodeKind::ExpressionStatement { .. } => {
                return None;
            },
            NodeKind::ForOfStatement { left, .. } => {
                return Some(ast.span(*left).contains_inclusive(span));
            },
            _ => {},
        }
        match ast.parent(at) {
            Some(above) => {
                at = above;
            },
            None => {
                return None;
            },
        }
    }
}

/// `at` is a `for-in` statement or lies inside one.
pub open spec fn spec_inside_for_in(tree: AstView, at: NodeId) -> bool
    decreases tree.len() - at,
{
    match tree.kind(at) {
        NodeKind::ForInStatement { .. } => true,
        NodeKind::Program { .. } => false,
        _ => match tree.parent(at) {
            Some(above) => spec_inside_for_in(tree, above),
            None => false,
        },
    }
}

/// Whether `start` is a `for-in` statement or lies inside one.
fn inside_for_in(ast: &Ast, start: NodeId) -> (inside: bool)
    requires
        ast@.wf(),
        start < ast@.len(),
    ensures
        inside == spec_inside_for_in(ast@, start),
{
    let mut at = start;
    loop
        invariant
            ast@.wf(),
            at < ast@.len(),
            spec_inside_for_in(ast@, start) == spec_inside_for_in(ast@, at),
        decreases ast@.len() - at,
    {
        match ast.kind(at) {
            NodeKind::ForInStatement { .. } => {
                return true;
            },
            NodeKind::Program { .. } => {
                return false;
            },
            _ => {},
        }
        match ast.parent(at) {
            Some(above) => {
                at = above;
            },
            None => {
                return false;
            },
        }
    }
}

/// Parentheses for a name: only `async` and `let` ever need them, where
/// they would be read as keywords.
///
/// - `async` as the whole left side of a `for-of` without `await`.
/// - `let` in the left side of a `for-of`; as the object of a computed member
///   access inside a `for-in` or at the start of a statement, where `let[`
///   would open a declaration; and, outside any `for-of` head, as a property
///   name, as the right side of an assignment, or as the initializer of a
///   declarator. Never in argument position.
pub open spec fn spec_identifier_needs_parentheses(tree: AstView, id: NodeId) -> bool {
    let span = tree.span(id);
    match tree.kind(id) {
        NodeKind::Identifier { name } => if name@ == "async"@ {
            tree.parent_kind(id) matches Some(NodeKind::ForOfStatement { is_await, left, .. })
                && !is_await && tree.span(left).covers(span)
        } else if name@ == "let"@ {
            !spec_is_argument(tree, id) && match tree.parent(id) {
                Some(parent) => match spec_for_of_left_at(tree, span, parent) {
                    Some(in_left) => in_left,
                    None => match tree.kind(parent) {
                        NodeKind::ComputedMemberExpression { object, .. } => tree.span(object)
                            == span && ((tree.parent(parent) matches Some(above)
                            && spec_inside_for_in(tree, above)) || spec_is_first_in_statement(
                            tree,
                            span,
                            Some(parent),
                            FirstInStatementMode::ExpressionOrExportDefault,
                        )),
                        NodeKind::StaticMemberExpression { object, .. } => tree.span(object)
                            != span,
                        NodeKind::AssignmentExpression { left, .. } => tree.span(left) != span,
                        NodeKind::VariableDeclarator { id: binding, .. } => tree.span(binding)
                            != span,
                        _ => false,
                    },
                },
                None => false,
            }
        } else {
            false
        },
        _ => false,
    }
}

/// Decides parentheses for a name.
pub fn identifier_needs_parentheses(ast: &Ast, id: NodeId) -> (needed: bool)
    requires
        ast@.wf(),
        id < ast@.len(),
    ensures
        needed == spec_identifier_needs_parentheses(ast@, id),
{
    let span = ast.span(id);
    let name = match ast.kind(id) {
        NodeKind::Identifier { name } => name,
        _ => {
            return false;
        },
    };
    if str_equals(name.as_str(), "async") {
        match ast.parent_kind(id) {
            Some(NodeKind::ForOfStatement { is_await, left, .. }) => {
                !*is_await && ast.span(*left).contains_inclusive(span)
            },
            _ => false,
        }
    } else if str_equals(name.as_str(), "let") {
        let parent = match ast.parent(id) {
            Some(parent) => parent,
            None => {
                return false;
            },
        };
        if is_argument(ast, id) {
            return false;
        }
        if let Some(in_left) = for_of_left_at(ast, span, parent) {
            return in_left;
        }
        match ast.kind(parent) {
            NodeKind::ComputedMemberExpression { object, .. } => {
                if ast.span(*object) != span {
                    return false;
                }
                if let Some(above) = ast.parent(parent) {
                    if inside_for_in(ast, above) {
                        return true;
                    }
                }
                is_first_in_statement(
                    ast,
                    span,
                    Some(parent),
                    FirstInStatementMode::ExpressionOrExportDefault,
                )
            },
            NodeKind::StaticMemberExpression { object, .. } => ast.span(*object) != span,
            NodeKind::AssignmentExpression { left, .. } => ast.span(*left) != span,
            NodeKind::VariableDeclarator { id: binding, .. } => ast.span(*binding) != span,
            _ => false,
        }
    } else {
        false
    }
}

/// The text of `span` runs over more than one line and is longer than a
/// hundred bytes.
pub open spec fn spec_jsx_assignment_needs_parentheses(span: Span, source: Seq<u8>) -> bool {
    span.end - span.start > 100 && exists|i: int|
        span.start <= i < span.end && #[trigger] source[i] == 10u8
}

/// Whether the element with the span `span`, on the right of an assignment,
/// is long and already broken over lines in the source text.
pub fn jsx_assignment_needs_parentheses(span: Span, source: &[u8]) -> (needed: bool)
    requires
        span.start <= span.end <= source@.len(),
    ensures
        needed == spec_jsx_assignment_needs_parentheses(span, source@),
{
    if span.end - span.start <= 100 {
        return false;
    }
    let mut i: usize = span.start as usize;
    while i < span.end as usize
        invariant
            span.start <= i <= span.end <= source@.len(),
            span.end - span.start > 100,
            forall|k: int| span.start <= k < i ==> #[trigger] source@[k] != 10u8,
        decreases span.end - i,
    {
        if source[i] == 10u8 {
            assert(source@[i as int] == 10u8);
            return true;
        }
        i += 1;
    }
    false
}

/// Parentheses for a JSX element or fragment with the span `span` under
/// `parent`: in an `extends` clause; on the left of `<`; on the right of an
/// assignment where [`spec_jsx_assignment_needs_parentheses`] holds; as the
/// callee of a call or `new`; and under a cast, `await`, member access,
/// sequence, unary expression, non-null assertion, spread or tagged
/// template.
pub open spec fn spec_jsx_element_or_fragment_needs_paren(
    tree: AstView,
    span: Span,
    parent: Option<NodeId>,
    source: Seq<u8>,
) -> bool {
    spec_is_class_extends(tree, parent, span) || (parent matches Some(p) && match tree.kind(p) {
        NodeKind::BinaryExpression { operator, left, .. } => operator is LessThan && tree.span(
            left,
        ) == span,
        NodeKind::AssignmentExpression { right, .. } => tree.span(right) == span
            && spec_jsx_assignment_needs_parentheses(span, source),
        NodeKind::CallExpression { .. } | NodeKind::NewExpression { .. } => !spec_is_node_argument(
            tree,
            span,
            p,
        ),
        NodeKind::TSAsExpression { .. }
        | NodeKind::TSSatisfiesExpression { .. }
        | NodeKind::AwaitExpression { .. }
        | NodeKind::StaticMemberExpression { .. }
        | NodeKind::ComputedMemberExpression { .. }
        | NodeKind::SequenceExpression { .. }
        | NodeKind::UnaryExpression { .. }
        | NodeKind::TSNonNullExpression { .. }
        | NodeKind::SpreadElement { .. }
        | NodeKind::TaggedTemplateExpression { .. }
        | NodeKind::JSXSpreadAttribute { .. }
        | NodeKind::JSXSpreadChild { .. } => true,
        _ => false,
    })
}

/// Decides parentheses for a JSX element or fragment.
pub fn jsx_element_or_fragment_needs_paren(
    ast: &Ast,
    span: Span,
    parent: Option<NodeId>,
    source: &[u8],
) -> (needed: bool)
    requires
        ast@.wf(),
        parent matches Some(p) ==> p < ast@.len(),
        span.start <= span.end <= source@.len(),
    ensures
        needed == spec_jsx_element_or_fragment_needs_paren(ast@, span, parent, source@),
{
    if is_class_extends(ast, parent, span) {
        return true;
    }
    let p = match parent {
        Some(p) => p,
        None => {
            return false;
        },
    };
    match ast.kind(p) {
        NodeKind::BinaryExpression { operator, left, .. } => {
            let is_left = ast.span(*left) == span;
            matches!(operator, BinaryOperator::LessThan) && is_left
        },
        NodeKind::AssignmentExpression { right, .. } => {
            if ast.span(*right) != span {
                return false;
            }
            jsx_assignment_needs_parentheses(span, source)
        },
        NodeKind::CallExpression { .. } | NodeKind::NewExpression { .. } => !is_node_argument(
            ast,
            span,
            p,
        ),
        NodeKind::TSAsExpression { .. }
        | NodeKind::TSSatisfiesExpression { .. }
        | NodeKind::AwaitExpression { .. }
        | NodeKind::StaticMemberExpression { .. }
        | NodeKind::ComputedMemberExpression { .. }
        | NodeKind::SequenceExpression { .. }
        | NodeKind::UnaryExpression { .. }
        | NodeKind::TSNonNullExpression { .. }
        | NodeKind::SpreadElement { .. }
        | NodeKind::TaggedTemplateExpression { .. }
        | NodeKind::JSXSpreadAttribute { .. }
        | NodeKind::JSXSpreadChild { .. } => true,
        _ => false,
    }
}

/// Parentheses for a number: as the object of a static member access, where
/// the dot would be read as a decimal point.
pub open spec fn spec_numeric_literal_needs_parentheses(tree: AstView, id: NodeId) -> bool {
    tree.parent_kind(id) matches Some(NodeKind::StaticMemberExpression { object, .. })
        && tree.span(spec_without_parentheses(tree, object)) == tree.span(id)
}

/// Decides parentheses for a number.
pub fn numeric_literal_needs_parentheses(ast: &Ast, id: NodeId) -> (needed: bool)
    requires
        ast@.wf(),
        id < ast@.len(),
    ensures
        needed == spec_numeric_literal_needs_parentheses(ast@, id),
{
    if let Some(parent) = ast.parent(id) {
        if let NodeKind::StaticMemberExpression { object, .. } = ast.kind(parent) {
            let inner = without_parentheses(ast, *object);
            return ast.span(inner) == ast.span(id);
        }
    }
    false
}

/// Parentheses for a string: as a whole expression statement, where it
/// would be read as a directive, the body of a concise arrow function
/// excepted.
pub open spec fn spec_string_literal_needs_parentheses(tree: AstView, id: NodeId) -> bool {
    &&& tree.parent(id) matches Some(statement)
    &&& tree.kind(statement) is ExpressionStatement
    &&& match tree.parent(statement) {
        Some(body) if tree.kind(body) is FunctionBody => match tree.parent_kind(body) {
            Some(NodeKind::ArrowFunctionExpression { expression, .. }) => !expression,
            _ => true,
        },
        _ => true,
    }
}

/// Decides parentheses for a string.
pub fn string_literal_needs_parentheses(ast: &Ast, id: NodeId) -> (needed: bool)
    requires
        ast@.wf(),
        id < ast@.len(),
    ensures
        needed == spec_string_literal_needs_parentheses(ast@, id),
{
    let statement = match ast.parent(id) {
        Some(statement) => statement,
        None => {
            return false;
        },
    };
    if let NodeKind::ExpressionStatement { .. } = ast.kind(statement) {
        if let Some(body) = ast.parent(statement) {
            if let NodeKind::FunctionBody { .. } = ast.kind(body) {
                if let Some(NodeKind::ArrowFunctionExpression { expression, .. }) = ast.parent_kind(
                    body,
                ) {
                    return !*expression;
                }
            }
        }
        true
    } else {
        false
    }
}

/// The node is the operand of a cast that itself stands in argument
/// position.
pub open spec fn spec_is_operand_of_cast_argument(tree: AstView, id: NodeId) -> bool {
    &&& tree.parent(id) matches Some(cast)
    &&& (tree.kind(cast) is TSAsExpression || tree.kind(cast) is TSSatisfiesExpression)
    &&& spec_is_argument(tree, cast)
}

/// Parentheses for an object literal: in an `extends` clause and at the
/// start of a statement or of a concise arrow body, where `{` would open a
/// block. Never in argument position, in a template, or as the operand of a
/// cast in argument position.
pub open spec fn spec_object_expression_needs_parentheses(tree: AstView, id: NodeId) -> bool {
    &&& !spec_is_argument(tree, id)
    &&& !(tree.parent_kind(id) matches Some(NodeKind::TemplateLiteral { .. }))
    &&& !spec_is_operand_of_cast_argument(tree, id)
    &&& (spec_is_class_extends(tree, tree.parent(id), tree.span(id)) || spec_is_first_in_statement(
        tree,
        tree.span(id),
        tree.parent(id),
        FirstInStatementMode::ExpressionStatementOrArrow,
    ))
}

/// Decides parentheses for an object literal.
pub fn object_expression_needs_parentheses(ast: &Ast, id: NodeId) -> (needed: bool)
    requires
        ast@.wf(),
        id < ast@.len(),
    ensures
        needed == spec_object_expression_needs_parentheses(ast@, id),
{
    let span = ast.span(id);
    let parent = ast.parent(id);
    if is_argument(ast, id) {
        return false;
    }
    if let Some(p) = parent {
        match ast.kind(p) {
            NodeKind::TemplateLiteral { .. } => {
                return false;
            },
            NodeKind::TSAsExpression { .. } | NodeKind::TSSatisfiesExpression { .. } => {
                if is_argument(ast, p) {
                    return false;
                }
            },
            _ => {},
        }
    }
    is_class_extends(ast, parent, span) || is_first_in_statement(
        ast,
        span,
        parent,
        FirstInStatementMode::ExpressionStatementOrArrow,
    )
}

/// The node is the callee of a `new` expression.
pub open spec fn spec_is_new_callee(tree: AstView, id: NodeId) -> bool {
    tree.parent_kind(id) matches Some(NodeKind::NewExpression { callee, .. }) && tree.span(callee)
        == tree.span(id)
}

/// Whether the node is the callee of a `new` expression.
pub fn is_new_callee(ast: &Ast, id: NodeId) -> (callee_of_new: bool)
    requires
        ast@.wf(),
        id < ast@.len(),
    ensures
        callee_of_new == spec_is_new_callee(ast@, id),
{
    match ast.parent_kind(id) {
        Some(NodeKind::NewExpression { callee, .. }) => ast.span(*callee) == ast.span(id),
        _ => false,
    }
}

/// Parentheses for a member access of any form: as the callee of `new`
/// where its object is or contains a call, as in `new (a().b)()`.
pub open spec fn spec_member_expression_needs_parentheses(tree: AstView, id: NodeId) -> bool {
    spec_is_new_callee(tree, id) && spec_member_has_call_object(tree, id)
}

/// Decides parentheses for a member access of any form.
pub fn member_expression_needs_parentheses(ast: &Ast, id: NodeId) -> (needed: bool)
    requires
        ast@.wf(),
        id < ast@.len(),
    ensures
        needed == spec_member_expression_needs_parentheses(ast@, id),
{
    is_new_callee(ast, id) && member_has_call_object(ast, id)
}

/// Parentheses for a computed member access: as the callee of `new` where
/// its object is or contains a call, and always in a decorator.
pub open spec fn spec_computed_member_expression_needs_parentheses(
    tree: AstView,
    id: NodeId,
) -> bool {
    if spec_is_new_callee(tree, id) {
        spec_member_has_call_object(tree, id)
    } else {
        tree.kind(id) is ComputedMemberExpression && tree.parent_kind(id) matches Some(
            NodeKind::Decorator { .. },
        )
    }
}

/// Decides parentheses for a computed member access.
pub fn computed_member_expression_needs_parentheses(ast: &Ast, id: NodeId) -> (needed: bool)
    requires
        ast@.wf(),
        id < ast@.len(),
        ast@.kind(id) is ComputedMemberExpression,
    ensures
        needed == spec_computed_member_expression_needs_parentheses(ast@, id),
{
    if is_new_callee(ast, id) {
        return member_has_call_object(ast, id);
    }
    if let Some(NodeKind::Decorator { .. }) = ast.parent_kind(id) {
        return true;
    }
    false
}

/// Parentheses for a static member access: as the callee of `new` where a
/// call stands on the left edge of its object.
pub open spec fn spec_static_member_expression_needs_parentheses(tree: AstView, id: NodeId) -> bool {
    &&& tree.kind(id) matches NodeKind::StaticMemberExpression { object, .. }
    &&& spec_is_new_callee(tree, id)
    &&& spec_left_edge_has_call(tree, object)
}

/// Decides parentheses for a static member access.
pub fn static_member_expression_needs_parentheses(ast: &Ast, id: NodeId) -> (needed: bool)
    requires
        ast@.wf(),
        id < ast@.len(),
    ensures
        needed == spec_static_member_expression_needs_parentheses(ast@, id),
{
    if let NodeKind::StaticMemberExpression { object, .. } = ast.kind(id) {
        if is_new_callee(ast, id) {
            return left_edge_has_call(ast, *object);
        }
    }
    false
}

/// A class expression or a function expression.
pub open spec fn spec_is_class_or_function_expression(kind: NodeKind) -> bool {
    match kind {
        NodeKind::Class { is_expression, .. } => is_expression,
        NodeKind::Function { is_expression, .. } => is_expression,
        _ => false,
    }
}

/// Parentheses for a call: as the callee of `new`; in a decorator unless its
/// callee is a chain of dotted names; and as an `export default` when its
/// text starts
/// with a class or function expression that is not the whole callee. Never
/// in argument position.
pub open spec fn spec_call_expression_needs_parentheses(tree: AstView, id: NodeId) -> bool {
    &&& tree.kind(id) matches NodeKind::CallExpression { callee, .. }
    &&& !spec_is_argument(tree, id)
    &&& match tree.parent_kind(id) {
        Some(NodeKind::NewExpression { .. }) => spec_is_new_callee(tree, id),
        Some(NodeKind::Decorator { .. }) => !spec_is_decorator_member_expression(tree, callee),
        Some(NodeKind::ExportDefaultDeclaration { .. }) => {
            let first = spec_leftmost(tree, callee);
            tree.span(callee) != tree.span(first) && spec_is_class_or_function_expression(
                tree.kind(first),
            )
        },
        _ => false,
    }
}

/// Decides parentheses for a call.
pub fn call_expression_needs_parentheses(ast: &Ast, id: NodeId) -> (needed: bool)
    requires
        ast@.wf(),
        id < ast@.len(),
    ensures
        needed == spec_call_expression_needs_parentheses(ast@, id),
{
    let callee = match ast.kind(id) {
        NodeKind::CallExpression { callee, .. } => *callee,
        _ => {
            return false;
        },
    };
    if is_argument(ast, id) {
        return false;
    }
    match ast.parent_kind(id) {
        Some(NodeKind::NewExpression { .. }) => is_new_callee(ast, id),
        Some(NodeKind::Decorator { .. }) => !is_decorator_member_expression(ast, callee),
        Some(NodeKind::ExportDefaultDeclaration { .. }) => {
            let first = leftmost(ast, callee);
            let starts_with_keyword = match ast.kind(first) {
                NodeKind::Class { is_expression, .. } => *is_expression,
                NodeKind::Function { is_expression, .. } => *is_expression,
                _ => false,
            };
            ast.span(callee) != ast.span(first) && starts_with_keyword
        },
        _ => false,
    }
}

/// Parentheses for a `new` expression: as the callee of a call where its
/// own callee is a call, and in an `extends` clause.
pub open spec fn spec_new_expression_needs_parentheses(tree: AstView, id: NodeId) -> bool {
    &&& tree.kind(id) matches NodeKind::NewExpression { callee, .. }
    &&& ((tree.parent_kind(id) matches Some(NodeKind::CallExpression { callee: outer, .. })
        && tree.span(outer) == tree.span(id) && tree.kind(callee) is CallExpression)
        || spec_is_class_extends(tree, tree.parent(id), tree.span(id)))
}

/// Decides parentheses for a `new` expression.
pub fn new_expression_needs_parentheses(ast: &Ast, id: NodeId) -> (needed: bool)
    requires
        ast@.wf(),
        id < ast@.len(),
    ensures
        needed == spec_new_expression_needs_parentheses(ast@, id),
{
    let callee = match ast.kind(id) {
        NodeKind::NewExpression { callee, .. } => *callee,
        _ => {
            return false;
        },
    };
    let span = ast.span(id);
    if let Some(NodeKind::CallExpression { callee: outer, .. }) = ast.parent_kind(id) {
        if ast.span(*outer) == span {
            if let NodeKind::CallExpression { .. } = ast.kind(callee) {
                return true;
            }
        }
    }
    is_class_extends(ast, ast.parent(id), span)
}

/// A prefix update directly under the unary operator of the same sign would
/// print as one longer token: `+ ++x`, `- --x`.
pub open spec fn spec_update_merges_with_unary(
    outer: UnaryOperator,
    operator: UpdateOperator,
) -> bool {
    (outer is UnaryPlus && operator is Increment) || (outer is UnaryNegation
        && operator is Decrement)
}

/// Parentheses for an update expression: a prefix update under the unary
/// operator of the same sign; otherwise as any unary-like expression. Never
/// in argument position.
pub open spec fn spec_update_expression_needs_parentheses(tree: AstView, id: NodeId) -> bool {
    &&& tree.kind(id) matches NodeKind::UpdateExpression { operator, prefix, .. }
    &&& !spec_is_argument(tree, id)
    &&& match tree.parent_kind(id) {
        Some(NodeKind::UnaryExpression { operator: outer, .. }) if prefix => spec_update_merges_with_unary(
            outer,
            operator,
        ),
        _ => spec_unary_like_expression_needs_parens(tree, id),
    }
}

/// Decides parentheses for an update expression.
pub fn update_expression_needs_parentheses(ast: &Ast, id: NodeId) -> (needed: bool)
    requires
        ast@.wf(),
        id < ast@.len(),
    ensures
        needed == spec_update_expression_needs_parentheses(ast@, id),
{
    let (operator, prefix) = match ast.kind(id) {
        NodeKind::UpdateExpression { operator, prefix, .. } => (*operator, *prefix),
        _ => {
            return false;
        },
    };
    if is_argument(ast, id) {
        return false;
    }
    if prefix {
        if let Some(NodeKind::UnaryExpression { operator: outer, .. }) = ast.parent_kind(id) {
            return (matches!(outer, UnaryOperator::UnaryPlus) && matches!(
                operator,
                UpdateOperator::Increment
            )) || (matches!(outer, UnaryOperator::UnaryNegation) && matches!(
                operator,
                UpdateOperator::Decrement
            ));
        }
    }
    unary_like_expression_needs_parens(ast, id)
}

/// Parentheses for a unary expression: `+` under `+` and `-` under `-`;
/// under `in` and `instanceof`, to show what is negated; otherwise as any
/// unary-like expression. Never in argument position.
pub open spec fn spec_unary_expression_needs_parentheses(tree: AstView, id: NodeId) -> bool {
    &&& tree.kind(id) matches NodeKind::UnaryExpression { operator, .. }
    &&& !spec_is_argument(tree, id)
    &&& match tree.parent_kind(id) {
        Some(NodeKind::UnaryExpression { operator: outer, .. }) => (operator is UnaryPlus
            || operator is UnaryNegation) && outer == operator,
        Some(NodeKind::BinaryExpression { operator: outer, .. }) if outer.spec_is_relational() => true,
        _ => spec_unary_like_expression_needs_parens(tree, id),
    }
}

/// Decides parentheses for a unary expression.
pub fn unary_expression_needs_parentheses(ast: &Ast, id: NodeId) -> (needed: bool)
    requires
        ast@.wf(),
        id < ast@.len(),
    ensures
        needed == spec_unary_expression_needs_parentheses(ast@, id),
{
    let operator = match ast.kind(id) {
        NodeKind::UnaryExpression { operator, .. } => *operator,
        _ => {
            return false;
        },
    };
    if is_argument(ast, id) {
        return false;
    }
    match ast.parent_kind(id) {
        Some(NodeKind::UnaryExpression { operator: outer, .. }) => {
            matches!(operator, UnaryOperator::UnaryPlus | UnaryOperator::UnaryNegation) && *outer
                == operator
        },
        Some(NodeKind::BinaryExpression { operator: outer, .. }) => {
            if outer.is_relational() {
                true
            } else {
                unary_like_expression_needs_parens(ast, id)
            }
        },
        _ => unary_like_expression_needs_parens(ast, id),
    }
}

/// Parentheses for a binary expression: `in` inside the head of a `for`
/// loop, and wherever a binary-like expression needs them. Never in
/// argument position.
pub open spec fn spec_binary_expression_needs_parentheses(tree: AstView, id: NodeId) -> bool {
    &&& tree.kind(id) matches NodeKind::BinaryExpression { operator, .. }
    &&& !spec_is_argument(tree, id)
    &&& ((operator.spec_is_in() && spec_is_in_for_initializer(tree, id))
        || spec_binary_like_needs_parens(tree, id))
}

/// Decides parentheses for a binary expression.
pub fn binary_expression_needs_parentheses(ast: &Ast, id: NodeId) -> (needed: bool)
    requires
        ast@.wf(),
        id < ast@.len(),
    ensures
        needed == spec_binary_expression_needs_parentheses(ast@, id),
{
    let operator = match ast.kind(id) {
        NodeKind::BinaryExpression { operator, .. } => *operator,
        _ => {
            return false;
        },
    };
    if is_argument(ast, id) {
        return false;
    }
    (operator.is_in() && is_in_for_initializer(ast, id)) || binary_like_needs_parens(ast, id)
}

/// Parentheses for a logical expression: as the callee of `new`; under a
/// logical expression with another operator; `??` under a conditional
/// expression; otherwise wherever a binary-like expression needs them.
pub open spec fn spec_logical_expression_needs_parentheses(tree: AstView, id: NodeId) -> bool {
    &&& tree.kind(id) matches NodeKind::LogicalExpression { operator, .. }
    &&& (spec_is_new_callee(tree, id) || match tree.parent_kind(id) {
        Some(NodeKind::LogicalExpression { operator: outer, .. }) => outer != operator,
        Some(NodeKind::ConditionalExpression { .. }) if operator.spec_is_coalesce() => true,
        _ => spec_binary_like_needs_parens(tree, id),
    })
}

/// Decides parentheses for a logical expression.
pub fn logical_expression_needs_parentheses(ast: &Ast, id: NodeId) -> (needed: bool)
    requires
        ast@.wf(),
        id < ast@.len(),
    ensures
        needed == spec_logical_expression_needs_parentheses(ast@, id),
{
    let operator = match ast.kind(id) {
        NodeKind::LogicalExpression { operator, .. } => *operator,
        _ => {
            return false;
        },
    };
    if is_new_callee(ast, id) {
        return true;
    }
    match ast.parent_kind(id) {
        Some(NodeKind::LogicalExpression { operator: outer, .. }) => *outer != operator,
        Some(NodeKind::ConditionalExpression { .. }) => {
            if operator.is_coalesce() {
                true
            } else {
                binary_like_needs_parens(ast, id)
            }
        },
        _ => binary_like_needs_parens(ast, id),
    }
}

/// The parents under which a conditional or arrow expression is always
/// wrapped, whatever its place among their children.
pub open spec fn spec_is_unary_or_cast(kind: NodeKind) -> bool {
    kind is UnaryExpression || kind is AwaitExpression || kind is TSTypeAssertion
        || kind is TSAsExpression || kind is TSSatisfiesExpression
}

/// Parentheses for a conditional expression: as the object of a member
/// access; under a unary, `await`, cast, spread, binary or logical
/// expression; as the test of another conditional expression; and wherever
/// an expression below update level needs them. Never in argument position.
pub open spec fn spec_conditional_expression_needs_parentheses(tree: AstView, id: NodeId) -> bool {
    let span = tree.span(id);
    &&& tree.kind(id) is ConditionalExpression
    &&& !spec_is_argument(tree, id)
    &&& match tree.parent_kind(id) {
        Some(NodeKind::StaticMemberExpression { object, .. }) => tree.span(object) == span,
        Some(NodeKind::ComputedMemberExpression { object, .. }) => tree.span(object) == span,
        Some(NodeKind::PrivateFieldExpression { object, .. }) => tree.span(object) == span,
        Some(NodeKind::SpreadElement { .. })
        | Some(NodeKind::JSXSpreadAttribute { .. })
        | Some(NodeKind::LogicalExpression { .. })
        | Some(NodeKind::BinaryExpression { .. }) => true,
        Some(NodeKind::ConditionalExpression { test, .. }) => tree.span(
            spec_without_parentheses(tree, test),
        ) == span,
        Some(kind) if spec_is_unary_or_cast(kind) => true,
        _ => spec_update_or_lower_expression_needs_parens(tree, span, tree.parent(id)),
    }
}

/// Decides parentheses for a conditional expression.
pub fn conditional_expression_needs_parentheses(ast: &Ast, id: NodeId) -> (needed: bool)
    requires
        ast@.wf(),
        id < ast@.len(),
    ensures
        needed == spec_conditional_expression_needs_parentheses(ast@, id),
{
    if let NodeKind::ConditionalExpression { .. } = ast.kind(id) {
    } else {
        return false;
    }
    let span = ast.span(id);
    if is_argument(ast, id) {
        return false;
    }
    match ast.parent_kind(id) {
        Some(NodeKind::StaticMemberExpression { object, .. }) => ast.span(*object) == span,
        Some(NodeKind::ComputedMemberExpression { object, .. }) => ast.span(*object) == span,
        Some(NodeKind::PrivateFieldExpression { object, .. }) => ast.span(*object) == span,
        Some(NodeKind::UnaryExpression { .. })
        | Some(NodeKind::AwaitExpression { .. })
        | Some(NodeKind::TSTypeAssertion { .. })
        | Some(NodeKind::TSAsExpression { .. })
        | Some(NodeKind::TSSatisfiesExpression { .. })
        | Some(NodeKind::SpreadElement { .. })
        | Some(NodeKind::JSXSpreadAttribute { .. })
        | Some(NodeKind::LogicalExpression { .. })
        | Some(NodeKind::BinaryExpression { .. }) => true,
        Some(NodeKind::ConditionalExpression { test, .. }) => {
            let inner = without_parentheses(ast, *test);
            ast.span(inner) == span
        },
        _ => update_or_lower_expression_needs_parens(ast, span, ast.parent(id)),
    }
}

/// Parentheses for a function expression: as callee of a call or `new`, as
/// the tag of a template, and at the start of a statement or of an
/// `export default`, where `function` would open a declaration. Never for a
/// declaration, never in argument position.
pub open spec fn spec_function_needs_parentheses(tree: AstView, id: NodeId) -> bool {
    &&& tree.kind(id) matches NodeKind::Function { is_expression, .. }
    &&& is_expression
    &&& !spec_is_argument(tree, id)
    &&& match tree.parent_kind(id) {
        Some(NodeKind::CallExpression { .. })
        | Some(NodeKind::NewExpression { .. })
        | Some(NodeKind::TaggedTemplateExpression { .. }) => true,
        _ => spec_is_first_in_statement(
            tree,
            tree.span(id),
            tree.parent(id),
            FirstInStatementMode::ExpressionOrExportDefault,
        ),
    }
}

/// Decides parentheses for a function.
pub fn function_needs_parentheses(ast: &Ast, id: NodeId) -> (needed: bool)
    requires
        ast@.wf(),
        id < ast@.len(),
    ensures
        needed == spec_function_needs_parentheses(ast@, id),
{
    match ast.kind(id) {
        NodeKind::Function { is_expression, .. } => {
            if !*is_expression {
                return false;
            }
        },
        _ => {
            return false;
        },
    }
    if is_argument(ast, id) {
        return false;
    }
    match ast.parent_kind(id) {
        Some(NodeKind::CallExpression { .. })
        | Some(NodeKind::NewExpression { .. })
        | Some(NodeKind::TaggedTemplateExpression { .. }) => true,
        _ => is_first_in_statement(
            ast,
            ast.span(id),
            ast.parent(id),
            FirstInStatementMode::ExpressionOrExportDefault,
        ),
    }
}

/// Parentheses for an assignment: never in argument position; under any
/// parent that is not named here; as the body of a concise arrow
/// function; as a whole statement only where it starts with an object
/// pattern; in a sequence unless the sequence is the head of a `for` loop;
/// never under another assignment, in a computed member access, or as the
/// initializer of a `for` loop.
pub open spec fn spec_assignment_expression_needs_parentheses(tree: AstView, id: NodeId) -> bool {
    let span = tree.span(id);
    &&& tree.kind(id) matches NodeKind::AssignmentExpression { left, .. }
    &&& !spec_is_argument(tree, id)
    &&& (match tree.parent(id) {
        Some(parent) => match tree.kind(parent) {
            NodeKind::ExpressionStatement { .. } => match tree.parent(parent) {
                Some(body) if tree.kind(body) is FunctionBody => tree.parent_kind(body) matches Some(
                    NodeKind::ArrowFunctionExpression { expression, .. },
                ) && expression,
                _ => spec_is_first_in_statement(
                    tree,
                    span,
                    Some(parent),
                    FirstInStatementMode::ExpressionStatementOrArrow,
                ) && tree.kind(left) is ObjectAssignmentTarget,
            },
            NodeKind::SequenceExpression { .. } => !(tree.parent_kind(parent) matches Some(
                NodeKind::ForStatement { .. },
            )),
            NodeKind::AssignmentExpression { .. }
            | NodeKind::ComputedMemberExpression { .. } => false,
            NodeKind::ForStatement { init, .. } => !(init matches Some(i) && tree.span(i) == span),
            _ => true,
        },
        None => true,
    })
}

/// Decides parentheses for an assignment.
pub fn assignment_expression_needs_parentheses(ast: &Ast, id: NodeId) -> (needed: bool)
    requires
        ast@.wf(),
        id < ast@.len(),
    ensures
        needed == spec_assignment_expression_needs_parentheses(ast@, id),
{
    let left = match ast.kind(id) {
        NodeKind::AssignmentExpression { left, .. } => *left,
        _ => {
            return false;
        },
    };
    let span = ast.span(id);
    if is_argument(ast, id) {
        return false;
    }
    let parent = match ast.parent(id) {
        Some(parent) => parent,
        None => {
            return true;
        },
    };
    match ast.kind(parent) {
        NodeKind::ExpressionStatement { .. } => {
            if let Some(body) = ast.parent(parent) {
                if let NodeKind::FunctionBody { .. } = ast.kind(body) {
                    return match ast.parent_kind(body) {
                        Some(NodeKind::ArrowFunctionExpression { expression, .. }) => *expression,
                        _ => false,
                    };
                }
            }
            let starts_with_pattern = match ast.kind(left) {
                NodeKind::ObjectAssignmentTarget { .. } => true,
                _ => false,
            };
            is_first_in_statement(
                ast,
                span,
                Some(parent),
                FirstInStatementMode::ExpressionStatementOrArrow,
            ) && starts_with_pattern
        },
        NodeKind::SequenceExpression { .. } => {
            match ast.parent_kind(parent) {
                Some(NodeKind::ForStatement { .. }) => false,
                _ => true,
            }
        },
        NodeKind::AssignmentExpression { .. } | NodeKind::ComputedMemberExpression { .. } => false,
        NodeKind::ForStatement { init, .. } => {
            match init {
                Some(i) => ast.span(*i) != span,
                None => true,
            }
        },
        _ => true,
    }
}

/// Parentheses for a sequence: everywhere but in argument position, as a
/// returned value, in the head of a `for` loop, as a whole statement, inside
/// another sequence, and directly under an arrow function.
pub open spec fn spec_sequence_expression_needs_parentheses(tree: AstView, id: NodeId) -> bool {
    tree.kind(id) is SequenceExpression && !spec_is_argument(tree, id) && !(tree.parent_kind(id)
        matches Some(kind) && (kind is ReturnStatement || kind is ForStatement
        || kind is ExpressionStatement || kind is SequenceExpression
        || kind is ArrowFunctionExpression))
}

/// Decides parentheses for a sequence.
pub fn sequence_expression_needs_parentheses(ast: &Ast, id: NodeId) -> (needed: bool)
    requires
        ast@.wf(),
        id < ast@.len(),
    ensures
        needed == spec_sequence_expression_needs_parentheses(ast@, id),
{
    if let NodeKind::SequenceExpression { .. } = ast.kind(id) {
    } else {
        return false;
    }
    if is_argument(ast, id) {
        return false;
    }
    match ast.parent_kind(id) {
        Some(NodeKind::ReturnStatement { .. })
        | Some(NodeKind::ForStatement { .. })
        | Some(NodeKind::ExpressionStatement { .. })
        | Some(NodeKind::SequenceExpression { .. })
        | Some(NodeKind::ArrowFunctionExpression { .. }) => false,
        _ => true,
    }
}

/// Parentheses for an `await` expression: never as the index of a computed
/// member access nor as an argument of a call or `new`; otherwise by
/// [`spec_await_or_yield_needs_parens`].
pub open spec fn spec_await_expression_needs_parentheses(tree: AstView, id: NodeId) -> bool {
    let span = tree.span(id);
    &&& tree.kind(id) is AwaitExpression
    &&& !(tree.parent_kind(id) matches Some(NodeKind::ComputedMemberExpression { expression, .. })
        && tree.span(expression) == span)
    &&& !((tree.parent_kind(id) matches Some(NodeKind::CallExpression { .. })
        || tree.parent_kind(id) matches Some(NodeKind::NewExpression { .. })) && spec_is_argument(
        tree,
        id,
    ))
    &&& spec_await_or_yield_needs_parens(tree, span, tree.parent(id))
}

/// Decides parentheses for an `await` expression.
pub fn await_expression_needs_parentheses(ast: &Ast, id: NodeId) -> (needed: bool)
    requires
        ast@.wf(),
        id < ast@.len(),
    ensures
        needed == spec_await_expression_needs_parentheses(ast@, id),
{
    if let NodeKind::AwaitExpression { .. } = ast.kind(id) {
    } else {
        return false;
    }
    let span = ast.span(id);
    match ast.parent_kind(id) {
        Some(NodeKind::ComputedMemberExpression { expression, .. }) => {
            if ast.span(*expression) == span {
                return false;
            }
        },
        Some(NodeKind::CallExpression { .. }) | Some(NodeKind::NewExpression { .. }) => {
            if is_argument(ast, id) {
                return false;
            }
        },
        _ => {},
    }
    await_or_yield_needs_parens(ast, span, ast.parent(id))
}

/// Parentheses for an optional chain, which must not swallow what follows
/// it: as the callee of `new`; in a decorator; as the callee of a call that
/// is not optional; as the object of a member access that is not optional.
/// Never in argument position.
pub open spec fn spec_chain_expression_needs_parentheses(tree: AstView, id: NodeId) -> bool {
    &&& tree.kind(id) is ChainExpression
    &&& match tree.parent_kind(id) {
        Some(NodeKind::NewExpression { .. }) => spec_is_new_callee(tree, id),
        Some(NodeKind::Decorator { .. }) => true,
        Some(NodeKind::CallExpression { callee, optional, .. }) => tree.span(callee)
            == tree.span(id) && !optional,
        Some(NodeKind::StaticMemberExpression { optional, .. }) => !optional,
        Some(NodeKind::ComputedMemberExpression { optional, object, .. }) => !optional
            && tree.span(object) == tree.span(id),
        _ => false,
    }
}

/// Decides parentheses for an optional chain.
pub fn chain_expression_needs_parentheses(ast: &Ast, id: NodeId) -> (needed: bool)
    requires
        ast@.wf(),
        id < ast@.len(),
    ensures
        needed == spec_chain_expression_needs_parentheses(ast@, id),
{
    if let NodeKind::ChainExpression { .. } = ast.kind(id) {
    } else {
        return false;
    }
    match ast.parent_kind(id) {
        Some(NodeKind::NewExpression { .. }) => is_new_callee(ast, id),
        Some(NodeKind::Decorator { .. }) => true,
        Some(NodeKind::CallExpression { callee, optional, .. }) => {
            ast.span(*callee) == ast.span(id) && !*optional
        },
        Some(NodeKind::StaticMemberExpression { optional, .. }) => !*optional,
        Some(NodeKind::ComputedMemberExpression { optional, object, .. }) => {
            !*optional && ast.span(*object) == ast.span(id)
        },
        _ => false,
    }
}

/// Parentheses for a class expression: with decorators in an `extends`
/// clause; as an `export default`; and at the start of a statement, where
/// `class` would open a declaration. Never for a declaration, and apart
/// from the first case never in argument position.
pub open spec fn spec_class_needs_parentheses(tree: AstView, id: NodeId) -> bool {
    let span = tree.span(id);
    &&& tree.kind(id) matches NodeKind::Class { is_expression, decorators, .. }
    &&& is_expression
    &&& ((decorators@.len() > 0 && spec_is_class_extends(tree, tree.parent(id), span)) || (
    !spec_is_argument(tree, id) && (tree.parent_kind(id) matches Some(
        NodeKind::ExportDefaultDeclaration { .. },
    ) || spec_is_first_in_statement(
        tree,
        span,
        tree.parent(id),
        FirstInStatementMode::ExpressionOrExportDefault,
    ))))
}

/// Decides parentheses for a class.
pub fn class_needs_parentheses(ast: &Ast, id: NodeId) -> (needed: bool)
    requires
        ast@.wf(),
        id < ast@.len(),
    ensures
        needed == spec_class_needs_parentheses(ast@, id),
{
    let decorated = match ast.kind(id) {
        NodeKind::Class { is_expression, decorators, .. } => {
            if !*is_expression {
                return false;
            }
            decorators.len() > 0
        },
        _ => {
            return false;
        },
    };
    let span = ast.span(id);
    let parent = ast.parent(id);
    if decorated && is_class_extends(ast, parent, span) {
        return true;
    }
    if is_argument(ast, id) {
        return false;
    }
    match ast.parent_kind(id) {
        Some(NodeKind::ExportDefaultDeclaration { .. }) => true,
        _ => is_first_in_statement(ast, span, parent, FirstInStatementMode::ExpressionOrExportDefault),
    }
}

/// Parentheses for an arrow function: under a unary, `await`, cast, binary
/// or logical expression; as the test of a conditional expression; as the
/// callee of a call or `new`; and wherever an expression below update level
/// needs them otherwise. Never in argument position.
pub open spec fn spec_arrow_function_expression_needs_parentheses(
    tree: AstView,
    id: NodeId,
) -> bool {
    let span = tree.span(id);
    &&& tree.kind(id) is ArrowFunctionExpression
    &&& !spec_is_argument(tree, id)
    &&& match tree.parent_kind(id) {
        Some(NodeKind::LogicalExpression { .. }) | Some(NodeKind::BinaryExpression { .. }) => true,
        Some(NodeKind::ConditionalExpression { test, .. }) => tree.span(
            spec_without_parentheses(tree, test),
        ) == span,
        Some(NodeKind::CallExpression { callee, .. }) => tree.span(callee) == span,
        Some(NodeKind::NewExpression { callee, .. }) => tree.span(callee) == span,
        Some(kind) if spec_is_unary_or_cast(kind) => true,
        _ => spec_update_or_lower_expression_needs_parens(tree, span, tree.parent(id)),
    }
}

/// Decides parentheses for an arrow function.
pub fn arrow_function_expression_needs_parentheses(ast: &Ast, id: NodeId) -> (needed: bool)
    requires
        ast@.wf(),
        id < ast@.len(),
    ensures
        needed == spec_arrow_function_expression_needs_parentheses(ast@, id),
{
    if let NodeKind::ArrowFunctionExpression { .. } = ast.kind(id) {
    } else {
        return false;
    }
    let span = ast.span(id);
    if is_argument(ast, id) {
        return false;
    }
    match ast.parent_kind(id) {
        Some(NodeKind::TSAsExpression { .. })
        | Some(NodeKind::TSSatisfiesExpression { .. })
        | Some(NodeKind::TSTypeAssertion { .. })
        | Some(NodeKind::UnaryExpression { .. })
        | Some(NodeKind::AwaitExpression { .. })
        | Some(NodeKind::LogicalExpression { .. })
        | Some(NodeKind::BinaryExpression { .. }) => true,
        Some(NodeKind::ConditionalExpression { test, .. }) => {
            let inner = without_parentheses(ast, *test);
            ast.span(inner) == span
        },
        Some(NodeKind::CallExpression { callee, .. }) => ast.span(*callee) == span,
        Some(NodeKind::NewExpression { callee, .. }) => ast.span(*callee) == span,
        _ => update_or_lower_expression_needs_parens(ast, span, ast.parent(id)),
    }
}

/// Parentheses for a `yield` expression: under `await` and under an
/// angle-bracket cast; otherwise by [`spec_await_or_yield_needs_parens`].
/// Never in argument position.
pub open spec fn spec_yield_expression_needs_parentheses(tree: AstView, id: NodeId) -> bool {
    &&& tree.kind(id) is YieldExpression
    &&& !spec_is_argument(tree, id)
    &&& (tree.parent_kind(id) matches Some(kind) && (kind is AwaitExpression
        || kind is TSTypeAssertion) || spec_await_or_yield_needs_parens(
        tree,
        tree.span(id),
        tree.parent(id),
    ))
}

/// Decides parentheses for a `yield` expression.
pub fn yield_expression_needs_parentheses(ast: &Ast, id: NodeId) -> (needed: bool)
    requires
        ast@.wf(),
        id < ast@.len(),
    ensures
        needed == spec_yield_expression_needs_parentheses(ast@, id),
{
    if let NodeKind::YieldExpression { .. } = ast.kind(id) {
    } else {
        return false;
    }
    if is_argument(ast, id) {
        return false;
    }
    match ast.parent_kind(id) {
        Some(NodeKind::AwaitExpression { .. }) | Some(NodeKind::TSTypeAssertion { .. }) => true,
        _ => await_or_yield_needs_parens(ast, ast.span(id), ast.parent(id)),
    }
}

/// Parentheses for a non-null assertion: in an `extends` clause, and as the
/// callee of `new` where a call stands on the member chain of its operand.
pub open spec fn spec_ts_non_null_expression_needs_parentheses(tree: AstView, id: NodeId) -> bool {
    &&& tree.kind(id) matches NodeKind::TSNonNullExpression { expression }
    &&& (spec_is_class_extends(tree, tree.parent(id), tree.span(id)) || (spec_is_new_callee(
        tree,
        id,
    ) && spec_member_chain_callee_needs_parens(tree, expression)))
}

/// Decides parentheses for a non-null assertion.
pub fn ts_non_null_expression_needs_parentheses(ast: &Ast, id: NodeId) -> (needed: bool)
    requires
        ast@.wf(),
        id < ast@.len(),
    ensures
        needed == spec_ts_non_null_expression_needs_parentheses(ast@, id),
{
    let expression = match ast.kind(id) {
        NodeKind::TSNonNullExpression { expression } => *expression,
        _ => {
            return false;
        },
    };
    if is_class_extends(ast, ast.parent(id), ast.span(id)) {
        return true;
    }
    is_new_callee(ast, id) && member_chain_callee_needs_parens(ast, expression)
}

/// Parentheses for an instantiation expression: as the object of a member
/// access.
pub open spec fn spec_ts_instantiation_expression_needs_parentheses(
    tree: AstView,
    id: NodeId,
) -> bool {
    &&& tree.kind(id) is TSInstantiationExpression
    &&& match tree.parent_kind(id) {
        Some(NodeKind::StaticMemberExpression { object, .. }) => tree.span(object) == tree.span(id),
        Some(NodeKind::ComputedMemberExpression { object, .. }) => tree.span(object) == tree.span(
            id,
        ),
        Some(NodeKind::PrivateFieldExpression { object, .. }) => tree.span(object) == tree.span(id),
        _ => false,
    }
}

/// Decides parentheses for an instantiation expression.
pub fn ts_instantiation_expression_needs_parentheses(ast: &Ast, id: NodeId) -> (needed: bool)
    requires
        ast@.wf(),
        id < ast@.len(),
    ensures
        needed == spec_ts_instantiation_expression_needs_parentheses(ast@, id),
{
    if let NodeKind::TSInstantiationExpression { .. } = ast.kind(id) {
    } else {
        return false;
    }
    match ast.parent_kind(id) {
        Some(NodeKind::StaticMemberExpression { object, .. }) => ast.span(*object) == ast.span(id),
        Some(NodeKind::ComputedMemberExpression { object, .. }) => ast.span(*object) == ast.span(
            id,
        ),
        Some(NodeKind::PrivateFieldExpression { object, .. }) => ast.span(*object) == ast.span(id),
        _ => false,
    }
}

/// The kinds of expression that the rules cover. A node of any other kind
/// is printed without parentheses.
pub open spec fn spec_has_parenthesization_rule(kind: NodeKind) -> bool {
    match kind {
        NodeKind::BooleanLiteral
        | NodeKind::NullLiteral
        | NodeKind::NumericLiteral
        | NodeKind::BigIntLiteral
        | NodeKind::RegExpLiteral
        | NodeKind::StringLiteral
        | NodeKind::TemplateLiteral { .. }
        | NodeKind::Identifier { .. }
        | NodeKind::MetaProperty
        | NodeKind::Super
        | NodeKind::ArrayExpression { .. }
        | NodeKind::ArrowFunctionExpression { .. }
        | NodeKind::AssignmentExpression { .. }
        | NodeKind::AwaitExpression { .. }
        | NodeKind::BinaryExpression { .. }
        | NodeKind::CallExpression { .. }
        | NodeKind::ChainExpression { .. }
        | NodeKind::Class { .. }
        | NodeKind::ConditionalExpression { .. }
        | NodeKind::Function { .. }
        | NodeKind::ImportExpression { .. }
        | NodeKind::LogicalExpression { .. }
        | NodeKind::NewExpression { .. }
        | NodeKind::ObjectExpression { .. }
        | NodeKind::ParenthesizedExpression { .. }
        | NodeKind::SequenceExpression { .. }
        | NodeKind::TaggedTemplateExpression { .. }
        | NodeKind::ThisExpression
        | NodeKind::UnaryExpression { .. }
        | NodeKind::UpdateExpression { .. }
        | NodeKind::YieldExpression { .. }
        | NodeKind::PrivateInExpression { .. }
        | NodeKind::JSXElement { .. }
        | NodeKind::JSXFragment { .. }
        | NodeKind::TSAsExpression { .. }
        | NodeKind::TSSatisfiesExpression { .. }
        | NodeKind::TSTypeAssertion { .. }
        | NodeKind::TSNonNullExpression { .. }
        | NodeKind::TSInstantiationExpression { .. }
        | NodeKind::V8IntrinsicExpression { .. }
        | NodeKind::StaticMemberExpression { .. }
        | NodeKind::ComputedMemberExpression { .. }
        | NodeKind::PrivateFieldExpression { .. } => true,
        _ => false,
    }
}

/// Whether the rules cover this kind of node. Where they do not,
/// [`needs_parentheses`] answers `false` without having decided anything.
pub fn has_parenthesization_rule(kind: &NodeKind) -> (covered: bool)
    ensures
        covered == spec_has_parenthesization_rule(*kind),
{
    match kind {
        NodeKind::BooleanLiteral
        | NodeKind::NullLiteral
        | NodeKind::NumericLiteral
        | NodeKind::BigIntLiteral
        | NodeKind::RegExpLiteral
        | NodeKind::StringLiteral
        | NodeKind::TemplateLiteral { .. }
        | NodeKind::Identifier { .. }
        | NodeKind::MetaProperty
        | NodeKind::Super
        | NodeKind::ArrayExpression { .. }
        | NodeKind::ArrowFunctionExpression { .. }
        | NodeKind::AssignmentExpression { .. }
        | NodeKind::AwaitExpression { .. }
        | NodeKind::BinaryExpression { .. }
        | NodeKind::CallExpression { .. }
        | NodeKind::ChainExpression { .. }
        | NodeKind::Class { .. }
        | NodeKind::ConditionalExpression { .. }
        | NodeKind::Function { .. }
        | NodeKind::ImportExpression { .. }
        | NodeKind::LogicalExpression { .. }
        | NodeKind::NewExpression { .. }
        | NodeKind::ObjectExpression { .. }
        | NodeKind::ParenthesizedExpression { .. }
        | NodeKind::SequenceExpression { .. }
        | NodeKind::TaggedTemplateExpression { .. }
        | NodeKind::ThisExpression
        | NodeKind::UnaryExpression { .. }
        | NodeKind::UpdateExpression { .. }
        | NodeKind::YieldExpression { .. }
        | NodeKind::PrivateInExpression { .. }
        | NodeKind::JSXElement { .. }
        | NodeKind::JSXFragment { .. }
        | NodeKind::TSAsExpression { .. }
        | NodeKind::TSSatisfiesExpression { .. }
        | NodeKind::TSTypeAssertion { .. }
        | NodeKind::TSNonNullExpression { .. }
        | NodeKind::TSInstantiationExpression { .. }
        | NodeKind::V8IntrinsicExpression { .. }
        | NodeKind::StaticMemberExpression { .. }
        | NodeKind::ComputedMemberExpression { .. }
        | NodeKind::PrivateFieldExpression { .. } => true,
        _ => false,
    }
}

/// Whether the node must be wrapped in parentheses where it stands, so that
/// the printed text parses back into the same tree. The answer is that of the
/// rule for the node's kind; a kind without a rule, and a kind that never
/// needs parentheses, give `false`.
pub open spec fn spec_needs_parentheses(tree: AstView, id: NodeId, source: Seq<u8>) -> bool {
    match tree.kind(id) {
        NodeKind::Identifier { .. } => spec_identifier_needs_parentheses(tree, id),
        NodeKind::NumericLiteral => spec_numeric_literal_needs_parentheses(tree, id),
        NodeKind::StringLiteral => spec_string_literal_needs_parentheses(tree, id),
        NodeKind::ObjectExpression { .. } => spec_object_expression_needs_parentheses(tree, id),
        NodeKind::ComputedMemberExpression { .. } => spec_computed_member_expression_needs_parentheses(
            tree,
            id,
        ),
        NodeKind::StaticMemberExpression { .. } => spec_static_member_expression_needs_parentheses(
            tree,
            id,
        ),
        NodeKind::CallExpression { .. } => spec_call_expression_needs_parentheses(tree, id),
        NodeKind::NewExpression { .. } => spec_new_expression_needs_parentheses(tree, id),
        NodeKind::UpdateExpression { .. } => spec_update_expression_needs_parentheses(tree, id),
        NodeKind::UnaryExpression { .. } => spec_unary_expression_needs_parentheses(tree, id),
        NodeKind::BinaryExpression { .. } => spec_binary_expression_needs_parentheses(tree, id),
        NodeKind::LogicalExpression { .. } => spec_logical_expression_needs_parentheses(tree, id),
        NodeKind::ConditionalExpression { .. } => spec_conditional_expression_needs_parentheses(
            tree,
            id,
        ),
        NodeKind::Function { .. } => spec_function_needs_parentheses(tree, id),
        NodeKind::AssignmentExpression { .. } => spec_assignment_expression_needs_parentheses(
            tree,
            id,
        ),
        NodeKind::SequenceExpression { .. } => spec_sequence_expression_needs_parentheses(tree, id),
        NodeKind::AwaitExpression { .. } => spec_await_expression_needs_parentheses(tree, id),
        NodeKind::ChainExpression { .. } => spec_chain_expression_needs_parentheses(tree, id),
        NodeKind::Class { .. } => spec_class_needs_parentheses(tree, id),
        NodeKind::ArrowFunctionExpression { .. } => spec_arrow_function_expression_needs_parentheses(
            tree,
            id,
        ),
        NodeKind::YieldExpression { .. } => spec_yield_expression_needs_parentheses(tree, id),
        NodeKind::ImportExpression { .. } => spec_is_new_callee(tree, id),
        NodeKind::TSAsExpression { .. }
        | NodeKind::TSSatisfiesExpression { .. }
        | NodeKind::TSTypeAssertion { .. } => spec_ts_as_or_satisfies_needs_parens(
            tree.parent_kind(id),
        ),
        NodeKind::TSNonNullExpression { .. } => spec_ts_non_null_expression_needs_parentheses(
            tree,
            id,
        ),
        NodeKind::TSInstantiationExpression { .. } => spec_ts_instantiation_expression_needs_parentheses(
            tree,
            id,
        ),
        NodeKind::JSXElement { .. }
        | NodeKind::JSXFragment { .. } => spec_jsx_element_or_fragment_needs_paren(
            tree,
            tree.span(id),
            tree.parent(id),
            source,
        ),
        _ => false,
    }
}

/// Decides whether the node `id` must be printed inside parentheses.
/// `source` is the text that the tree was parsed from.
pub fn needs_parentheses(ast: &Ast, id: NodeId, source: &[u8]) -> (needed: bool)
    requires
        ast@.wf(),
        ast@.fits(source@.len()),
        id < ast@.len(),
    ensures
        needed == spec_needs_parentheses(ast@, id, source@),
        !spec_has_parenthesization_rule(ast@.kind(id)) ==> !needed,
{
    match ast.kind(id) {
        NodeKind::Identifier { .. } => identifier_needs_parentheses(ast, id),
        NodeKind::NumericLiteral => numeric_literal_needs_parentheses(ast, id),
        NodeKind::StringLiteral => string_literal_needs_parentheses(ast, id),
        NodeKind::ObjectExpression { .. } => object_expression_needs_parentheses(ast, id),
        NodeKind::ComputedMemberExpression { .. } => computed_member_expression_needs_parentheses(
            ast,
            id,
        ),
        NodeKind::StaticMemberExpression { .. } => static_member_expression_needs_parentheses(
            ast,
            id,
        ),
        NodeKind::CallExpression { .. } => call_expression_needs_parentheses(ast, id),
        NodeKind::NewExpression { .. } => new_expression_needs_parentheses(ast, id),
        NodeKind::UpdateExpression { .. } => update_expression_needs_parentheses(ast, id),
        NodeKind::UnaryExpression { .. } => unary_expression_needs_parentheses(ast, id),
        NodeKind::BinaryExpression { .. } => binary_expression_needs_parentheses(ast, id),
        NodeKind::LogicalExpression { .. } => logical_expression_needs_parentheses(ast, id),
        NodeKind::ConditionalExpression { .. } => conditional_expression_needs_parentheses(ast, id),
        NodeKind::Function { .. } => function_needs_parentheses(ast, id),
        NodeKind::AssignmentExpression { .. } => assignment_expression_needs_parentheses(ast, id),
        NodeKind::SequenceExpression { .. } => sequence_expression_needs_parentheses(ast, id),
        NodeKind::AwaitExpression { .. } => await_expression_needs_parentheses(ast, id),
        NodeKind::ChainExpression { .. } => chain_expression_needs_parentheses(ast, id),
        NodeKind::Class { .. } => class_needs_parentheses(ast, id),
        NodeKind::ArrowFunctionExpression { .. } => arrow_function_expression_needs_parentheses(
            ast,
            id,
        ),
        NodeKind::YieldExpression { .. } => yield_expression_needs_parentheses(ast, id),
        NodeKind::ImportExpression { .. } => is_new_callee(ast, id),
        NodeKind::TSAsExpression { .. }
        | NodeKind::TSSatisfiesExpression { .. }
        | NodeKind::TSTypeAssertion { .. } => ts_as_or_satisfies_needs_parens(ast.parent_kind(id)),
        NodeKind::TSNonNullExpression { .. } => ts_non_null_expression_needs_parentheses(ast, id),
        NodeKind::TSInstantiationExpression { .. } => ts_instantiation_expression_needs_parentheses(
            ast,
            id,
        ),
        NodeKind::JSXElement { .. } | NodeKind::JSXFragment { .. } => jsx_element_or_fragment_needs_paren(
            ast,
            ast.span(id),
            ast.parent(id),
            source,
        ),
        _ => false,
    }
}

} // verus!
