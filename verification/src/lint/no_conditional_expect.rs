//! The rule against `expect` in conditional code: in a branch, in a `catch`
//! clause, in a callback of `.catch()`, or in a function of its own.
//!
//! Which calls are calls of a test function is not decided here. The caller
//! says so with one flag for each node of the tree.

use vstd::prelude::*;
use crate::ast::{Ast, AstView, NodeId, NodeKind};
use crate::lint::diagnostic::Diagnostic;
use crate::span::Span;
use crate::text::str_equals;

verus! {

/// The rule. It has no options.
#[derive(Clone, Copy, Debug, Default, PartialEq, Eq)]
pub struct NoConditionalExpect;

/// The warning of the rule, pointing at `span`.
pub fn no_conditional_expect_diagnostic(span: Span) -> (diagnostic: Diagnostic)
    ensures
        diagnostic.message@ == "Unexpected conditional expect"@,
        diagnostic.help@ == "Avoid calling `expect` conditionally"@,
        diagnostic.label == span,
{
    Diagnostic {
        message: "Unexpected conditional expect".to_owned(),
        help: "Avoid calling `expect` conditionally".to_owned(),
        label: span,
    }
}

/// The node is the name `word`.
pub open spec fn spec_is_name(tree: AstView, id: NodeId, word: Seq<char>) -> bool {
    tree.kind(id) matches NodeKind::Identifier { name } && name@ == word
}

/// Whether the node is the name `word`.
pub fn is_name(ast: &Ast, id: NodeId, word: &str) -> (named: bool)
    requires
        id < ast@.len(),
    ensures
        named == spec_is_name(ast@, id, word@),
{
    match ast.kind(id) {
        NodeKind::Identifier { name } => str_equals(name.as_str(), word),
        _ => false,
    }
}

/// The node is a static member access of the property `word`.
pub open spec fn spec_is_member_named(tree: AstView, id: NodeId, word: Seq<char>) -> bool {
    &&& tree.kind(id) matches NodeKind::StaticMemberExpression { property, .. }
    &&& tree.kind(property) matches NodeKind::IdentifierName { name }
    &&& name@ == word
}

/// Whether the node is a static member access of the property `word`.
pub fn is_member_named(ast: &Ast, id: NodeId, word: &str) -> (named: bool)
    requires
        ast@.wf(),
        id < ast@.len(),
    ensures
        named == spec_is_member_named(ast@, id, word@),
{
    if let NodeKind::StaticMemberExpression { property, .. } = ast.kind(id) {
        if let NodeKind::IdentifierName { name } = ast.kind(*property) {
            return str_equals(name.as_str(), word);
        }
    }
    false
}

/// The name of the property that a member access reads, where the text
/// fixes it: the property of a static member access, and the literal in the
/// brackets of a computed one.
pub open spec fn spec_static_property_name(tree: AstView, id: NodeId) -> Option<Seq<char>> {
    match tree.kind(id) {
        NodeKind::StaticMemberExpression { property, .. } => match tree.kind(property) {
            NodeKind::IdentifierName { name } => Some(name@),
            _ => None,
        },
        NodeKind::ComputedMemberExpression { static_name: Some(name), .. } => Some(name@),
        _ => None,
    }
}

/// Whether the node is a member access that reads the property `word`,
/// written with a dot or with a literal in brackets.
pub fn reads_property(ast: &Ast, id: NodeId, word: &str) -> (named: bool)
    requires
        ast@.wf(),
        id < ast@.len(),
    ensures
        named == (spec_static_property_name(ast@, id) == Some(word@)),
{
    match ast.kind(id) {
        NodeKind::StaticMemberExpression { property, .. } => match ast.kind(*property) {
            NodeKind::IdentifierName { name } => str_equals(name.as_str(), word),
            _ => false,
        },
        NodeKind::ComputedMemberExpression { static_name: Some(name), .. } => str_equals(
            name.as_str(),
            word,
        ),
        _ => false,
    }
}

/// What the ancestors of `node` say of it: whether it stands in conditional
/// code, and whether it stands in a test.
///
/// The walk goes up to the first call of a test function, or to the root. On
/// its way a `catch` clause, a `switch` or `if` statement, a conditional or
/// logical expression, a function, and a call of `.catch()` or of
/// `["catch"]()` make the code conditional.
pub open spec fn spec_check_parents(
    tree: AstView,
    test_calls: Seq<bool>,
    node: NodeId,
    in_conditional: bool,
    in_jest_test: bool,
) -> (bool, bool)
    decreases tree.len() - node,
{
    match tree.parent(node) {
        Some(parent) => match tree.kind(parent) {
            NodeKind::CallExpression { callee, .. } => if test_calls[parent as int] {
                (in_conditional, true)
            } else {
                spec_check_parents(
                    tree,
                    test_calls,
                    parent,
                    in_conditional || spec_static_property_name(tree, callee) == Some("catch"@),
                    in_jest_test,
                )
            },
            NodeKind::CatchClause { .. }
            | NodeKind::SwitchStatement { .. }
            | NodeKind::IfStatement { .. }
            | NodeKind::ConditionalExpression { .. }
            | NodeKind::LogicalExpression { .. }
            | NodeKind::Function { .. } => spec_check_parents(
                tree,
                test_calls,
                parent,
                true,
                in_jest_test,
            ),
            NodeKind::Program { .. } => (in_conditional, in_jest_test),
            _ => spec_check_parents(tree, test_calls, parent, in_conditional, in_jest_test),
        },
        None => (in_conditional, in_jest_test),
    }
}

/// Walks up from `node` and says whether it stands in conditional code and
/// whether it stands in a test.
pub fn check_parents(
    ast: &Ast,
    test_calls: &Vec<bool>,
    node: NodeId,
    in_conditional: bool,
    in_jest_test: bool,
) -> (found: (bool, bool))
    requires
        ast@.wf(),
        node < ast@.len(),
        test_calls@.len() == ast@.len(),
    ensures
        found == spec_check_parents(ast@, test_calls@, node, in_conditional, in_jest_test),
{
    let mut current = node;
    let mut conditional = in_conditional;
    loop
        invariant
            ast@.wf(),
            current < ast@.len(),
            test_calls@.len() == ast@.len(),
            spec_check_parents(ast@, test_calls@, node, in_conditional, in_jest_test)
                == spec_check_parents(ast@, test_calls@, current, conditional, in_jest_test),
        decreases ast@.len() - current,
    {
        let parent = match ast.parent(current) {
            Some(parent) => parent,
            None => {
                return (conditional, in_jest_test);
            },
        };
        match ast.kind(parent) {
            NodeKind::CallExpression { callee, .. } => {
                if test_calls[parent] {
                    return (conditional, true);
                }
                if reads_property(ast, *callee, "catch") {
                    conditional = true;
                }
            },
            NodeKind::CatchClause { .. }
            | NodeKind::SwitchStatement { .. }
            | NodeKind::IfStatement { .. }
            | NodeKind::ConditionalExpression { .. }
            | NodeKind::LogicalExpression { .. }
            | NodeKind::Function { .. } => {
                conditional = true;
            },
            NodeKind::Program { .. } => {
                return (conditional, in_jest_test);
            },
            _ => {},
        }
        current = parent;
    }
}

/// The function stands at the top of its file, exported or not.
pub open spec fn spec_is_top_level_function(tree: AstView, function: NodeId) -> bool {
    tree.parent_kind(function) matches Some(kind) && (kind is Program
        || kind is ExportNamedDeclaration || kind is ExportDefaultDeclaration)
}

/// Whether the function stands at the top of its file.
pub fn is_top_level_function(ast: &Ast, function: NodeId) -> (top: bool)
    requires
        ast@.wf(),
        function < ast@.len(),
    ensures
        top == spec_is_top_level_function(ast@, function),
{
    match ast.parent_kind(function) {
        Some(NodeKind::Program { .. })
        | Some(NodeKind::ExportNamedDeclaration { .. })
        | Some(NodeKind::ExportDefaultDeclaration { .. }) => true,
        _ => false,
    }
}

/// The name of a function, if it has one.
pub open spec fn spec_function_name(tree: AstView, function: NodeId) -> Option<Seq<char>> {
    match tree.kind(function) {
        NodeKind::Function { id: Some(binding), .. } => match tree.kind(binding) {
            NodeKind::BindingIdentifier { name } => Some(name@),
            _ => None,
        },
        _ => None,
    }
}

/// The call `call` is a call of a test function, and one of its arguments is
/// the name `word`.
pub open spec fn spec_passes_name_to_test(
    tree: AstView,
    test_calls: Seq<bool>,
    call: NodeId,
    word: Seq<char>,
) -> bool {
    &&& test_calls[call as int]
    &&& tree.kind(call) matches NodeKind::CallExpression { arguments, .. }
    &&& exists|k: int| 0 <= k < arguments@.len() && #[trigger] spec_is_name(tree, arguments@[k], word)
}

/// The function has a name, and some call of a test function anywhere in
/// the tree has that name among its arguments.
pub open spec fn spec_function_used_in_jest_tests(
    tree: AstView,
    test_calls: Seq<bool>,
    function: NodeId,
) -> bool {
    match spec_function_name(tree, function) {
        Some(word) => spec_some_test_takes(tree, test_calls, word),
        None => false,
    }
}

/// Some call of a test function has the name `word` among its arguments.
pub open spec fn spec_some_test_takes(tree: AstView, test_calls: Seq<bool>, word: Seq<char>) -> bool {
    exists|call: NodeId|
        call < tree.len() && #[trigger] spec_passes_name_to_test(tree, test_calls, call, word)
}

/// Whether `call` is a call of a test function with the name `word` among
/// its arguments.
#[verifier::loop_isolation(false)]
fn passes_name_to_test(ast: &Ast, test_calls: &Vec<bool>, call: NodeId, word: &str) -> (passes: bool)
    requires
        ast@.wf(),
        call < ast@.len(),
        test_calls@.len() == ast@.len(),
    ensures
        passes == spec_passes_name_to_test(ast@, test_calls@, call, word@),
{
    if !test_calls[call] {
        return false;
    }
    if let NodeKind::CallExpression { arguments, .. } = ast.kind(call) {
        let mut i: usize = 0;
        while i < arguments.len()
            invariant
                i <= arguments.len(),
                forall|k: int| 0 <= k < arguments.len() ==> (#[trigger] arguments@[k]) < ast@.len(),
                forall|k: int| 0 <= k < i ==> !#[trigger] spec_is_name(ast@, arguments@[k], word@),
            decreases arguments.len() - i,
        {
            if is_name(ast, arguments[i], word) {
                assert(spec_is_name(ast@, arguments@[i as int], word@));
                return true;
            }
            i += 1;
        }
    }
    false
}

/// Whether the function has a name that some call of a test function has
/// among its arguments.
#[verifier::loop_isolation(false)]
pub fn function_used_in_jest_tests(ast: &Ast, test_calls: &Vec<bool>, function: NodeId) -> (used: bool)
    requires
        ast@.wf(),
        function < ast@.len(),
        test_calls@.len() == ast@.len(),
    ensures
        used == spec_function_used_in_jest_tests(ast@, test_calls@, function),
{
    let word = match ast.kind(function) {
        NodeKind::Function { id: Some(binding), .. } => match ast.kind(*binding) {
            NodeKind::BindingIdentifier { name } => name.as_str(),
            _ => {
                return false;
            },
        },
        _ => {
            return false;
        },
    };
    let mut call: usize = 0;
    while call < ast.len()
        invariant
            ast@.wf(),
            call <= ast@.len(),
            test_calls@.len() == ast@.len(),
            spec_function_name(ast@, function) == Some(word@),
            forall|k: NodeId|
                k < call ==> !#[trigger] spec_passes_name_to_test(ast@, test_calls@, k, word@),
        decreases ast@.len() - call,
    {
        if passes_name_to_test(ast, test_calls, call, word) {
            assert(spec_function_name(ast@, function) == Some(word@));
            assert(call < ast@.len() && spec_passes_name_to_test(ast@, test_calls@, call, word@));
            assert(exists|c: NodeId|
                c < ast@.len() && #[trigger] spec_passes_name_to_test(ast@, test_calls@, c, word@));
            return true;
        }
        call += 1;
    }
    false
}

/// Whether `at`, or the nearest function above it that stands at the top of
/// its file, is a function used in tests.
pub open spec fn spec_in_jest_function_context_at(
    tree: AstView,
    test_calls: Seq<bool>,
    at: NodeId,
) -> bool
    decreases tree.len() - at,
{
    let above = match tree.parent(at) {
        Some(parent) => spec_in_jest_function_context_at(tree, test_calls, parent),
        None => false,
    };
    match tree.kind(at) {
        NodeKind::Function { .. } => if spec_is_top_level_function(tree, at) {
            spec_function_used_in_jest_tests(tree, test_calls, at)
        } else {
            above
        },
        NodeKind::Program { .. } => false,
        _ => above,
    }
}

/// A call of `expect` outside any test stands in a test context when the
/// nearest top-level function around it is handed to a test function by
/// name.
pub open spec fn spec_is_expect_in_jest_function_context(
    tree: AstView,
    test_calls: Seq<bool>,
    node: NodeId,
) -> bool {
    tree.parent(node) matches Some(parent) && spec_in_jest_function_context_at(
        tree,
        test_calls,
        parent,
    )
}

/// Whether `node` stands in a function that the tests use.
pub fn is_expect_in_jest_function_context(ast: &Ast, test_calls: &Vec<bool>, node: NodeId) -> (inside:
    bool)
    requires
        ast@.wf(),
        node < ast@.len(),
        test_calls@.len() == ast@.len(),
    ensures
        inside == spec_is_expect_in_jest_function_context(ast@, test_calls@, node),
{
    let mut at = match ast.parent(node) {
        Some(parent) => parent,
        None => {
            return false;
        },
    };
    loop
        invariant
            ast@.wf(),
            at < ast@.len(),
            test_calls@.len() == ast@.len(),
            spec_is_expect_in_jest_function_context(ast@, test_calls@, node)
                == spec_in_jest_function_context_at(ast@, test_calls@, at),
        decreases ast@.len() - at,
    {
        match ast.kind(at) {
            NodeKind::Function { .. } => {
                if is_top_level_function(ast, at) {
                    return function_used_in_jest_tests(ast, test_calls, at);
                }
            },
            NodeKind::Program { .. } => {
                return false;
            },
            _ => {},
        }
        match ast.parent(at) {
            Some(parent) => {
                at = parent;
            },
            None => {
                return false;
            },
        }
    }
}

/// Whether the nearest `try` statement at or above `at` has a `finally`
/// block.
pub open spec fn spec_in_finally_block_at(tree: AstView, at: NodeId) -> bool
    decreases tree.len() - at,
{
    match tree.kind(at) {
        NodeKind::TryStatement { finalizer, .. } => finalizer is Some,
        NodeKind::Program { .. } => false,
        _ => match tree.parent(at) {
            Some(parent) => spec_in_finally_block_at(tree, parent),
            None => false,
        },
    }
}

/// The nearest `try` statement around the node has a `finally` block.
pub open spec fn spec_is_in_finally_block_simple(tree: AstView, node: NodeId) -> bool {
    tree.parent(node) matches Some(parent) && spec_in_finally_block_at(tree, parent)
}

/// Whether the nearest `try` statement around `node` has a `finally` block.
pub fn is_in_finally_block_simple(ast: &Ast, node: NodeId) -> (inside: bool)
    requires
        ast@.wf(),
        node < ast@.len(),
    ensures
        inside == spec_is_in_finally_block_simple(ast@, node),
{
    let mut at = match ast.parent(node) {
        Some(parent) => parent,
        None => {
            return false;
        },
    };
    loop
        invariant
            ast@.wf(),
            at < ast@.len(),
            spec_is_in_finally_block_simple(ast@, node) == spec_in_finally_block_at(ast@, at),
        decreases ast@.len() - at,
    {
        match ast.kind(at) {
            NodeKind::TryStatement { finalizer, .. } => {
                return finalizer.is_some();
            },
            NodeKind::Program { .. } => {
                return false;
            },
            _ => {},
        }
        match ast.parent(at) {
            Some(parent) => {
                at = parent;
            },
            None => {
                return false;
            },
        }
    }
}

/// The code around `node` is conditional.
pub open spec fn spec_is_conditional(tree: AstView, test_calls: Seq<bool>, node: NodeId) -> bool {
    spec_check_parents(tree, test_calls, node, false, false).0
}

/// `node` is conditional code in a function that the tests use.
pub open spec fn spec_is_conditional_in_context(
    tree: AstView,
    test_calls: Seq<bool>,
    node: NodeId,
) -> bool {
    spec_is_expect_in_jest_function_context(tree, test_calls, node) && spec_is_conditional(
        tree,
        test_calls,
        node,
    )
}

impl NoConditionalExpect {
    /// The place that the rule reports for the call `node`, if any.
    /// `expect_head` is where the `expect` of an assertion begins, where
    /// `node` was recognised as an assertion of a test.
    ///
    /// - An assertion is reported, at its head, where it stands in
    ///   conditional code inside a test.
    /// - A plain call `expect(..)` or `expect(..).matcher(..)` is reported,
    ///   at the name `expect`, where it stands in conditional code of a
    ///   function that the tests use, unless a `finally` block is around it.
    /// - A call `expect.method(..)` other than `expect.fail(..)` is reported
    ///   likewise, a `finally` block notwithstanding.
    pub open spec fn spec_run_on_jest_node(
        tree: AstView,
        test_calls: Seq<bool>,
        node: NodeId,
        expect_head: Option<Span>,
    ) -> Option<Span> {
        match tree.kind(node) {
            NodeKind::CallExpression { callee, .. } => match expect_head {
                Some(head) => {
                    let found = spec_check_parents(tree, test_calls, node, false, false);
                    if found.0 && found.1 {
                        Some(head)
                    } else {
                        None
                    }
                },
                None => match tree.kind(callee) {
                    NodeKind::Identifier { .. } => if spec_is_name(tree, callee, "expect"@)
                        && spec_is_conditional_in_context(tree, test_calls, node)
                        && !spec_is_in_finally_block_simple(tree, node) {
                        Some(tree.span(callee))
                    } else {
                        None
                    },
                    NodeKind::StaticMemberExpression { object, .. } => match tree.kind(object) {
                        NodeKind::Identifier { .. } => if spec_is_name(tree, object, "expect"@)
                            && !spec_is_member_named(tree, callee, "fail"@)
                            && spec_is_conditional_in_context(tree, test_calls, node) {
                            Some(tree.span(object))
                        } else {
                            None
                        },
                        NodeKind::CallExpression { callee: inner, .. } => if spec_is_name(
                            tree,
                            inner,
                            "expect"@,
                        ) && spec_is_conditional_in_context(tree, test_calls, node)
                            && !spec_is_in_finally_block_simple(tree, node) {
                            Some(tree.span(inner))
                        } else {
                            None
                        },
                        _ => None,
                    },
                    _ => None,
                },
            },
            _ => None,
        }
    }

    /// Checks the call `node` and reports where it calls `expect`
    /// conditionally.
    pub fn run_on_jest_node(
        &self,
        ast: &Ast,
        test_calls: &Vec<bool>,
        node: NodeId,
        expect_head: Option<Span>,
    ) -> (report: Option<Diagnostic>)
        requires
            ast@.wf(),
            node < ast@.len(),
            test_calls@.len() == ast@.len(),
        ensures
            match Self::spec_run_on_jest_node(ast@, test_calls@, node, expect_head) {
                Some(span) => report matches Some(diagnostic) && diagnostic.label == span
                    && diagnostic.message@ == "Unexpected conditional expect"@ && diagnostic.help@
                    == "Avoid calling `expect` conditionally"@,
                None => report is None,
            },
    {
        let callee = match ast.kind(node) {
            NodeKind::CallExpression { callee, .. } => *callee,
            _ => {
                return None;
            },
        };
        if let Some(head) = expect_head {
            let (has_condition_or_catch, in_jest_test) = check_parents(
                ast,
                test_calls,
                node,
                false,
                false,
            );
            if has_condition_or_catch && in_jest_test {
                return Some(no_conditional_expect_diagnostic(head));
            }
            return None;
        }
        match ast.kind(callee) {
            NodeKind::Identifier { .. } => {
                if is_name(ast, callee, "expect") && is_expect_in_jest_function_context(
                    ast,
                    test_calls,
                    node,
                ) {
                    let (has_condition_or_catch, _) = check_parents(
                        ast,
                        test_calls,
                        node,
                        false,
                        false,
                    );
                    if has_condition_or_catch && !is_in_finally_block_simple(ast, node) {
                        return Some(no_conditional_expect_diagnostic(ast.span(callee)));
                    }
                }
                None
            },
            NodeKind::StaticMemberExpression { object, .. } => {
                match ast.kind(*object) {
                    NodeKind::Identifier { .. } => {
                        if is_name(ast, *object, "expect") {
                            if is_member_named(ast, callee, "fail") {
                                return None;
                            }
                            if is_expect_in_jest_function_context(ast, test_calls, node) {
                                let (has_condition_or_catch, _) = check_parents(
                                    ast,
                                    test_calls,
                                    node,
                                    false,
                                    false,
                                );
                                if has_condition_or_catch {
                                    return Some(no_conditional_expect_diagnostic(ast.span(*object)));
                                }
                            }
                        }
                        None
                    },
                    NodeKind::CallExpression { callee: inner, .. } => {
                        if is_name(ast, *inner, "expect") && is_expect_in_jest_function_context(
                            ast,
                            test_calls,
                            node,
                        ) {
                            let (has_condition_or_catch, _) = check_parents(
                                ast,
                                test_calls,
                                node,
                                false,
                                false,
                            );
                            if has_condition_or_catch && !is_in_finally_block_simple(ast, node) {
                                return Some(no_conditional_expect_diagnostic(ast.span(*inner)));
                            }
                        }
                        None
                    },
                    _ => None,
                }
            },
            _ => None,
        }
    }
}

} // verus!
