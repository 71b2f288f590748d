//! Collects where the arguments of calls begin, so that a later pass can
//! tell an argument from a callee by its offset alone.

use vstd::prelude::*;
use crate::ast::{append, append_one, append_option, option_seq, Ast, AstView, NodeId, NodeKind};
use rustc_hash::FxHashSet;

verus! {

/// The hasher state of `rustc_hash`'s collections. A value of it holds
/// nothing that contracts speak of.
#[verifier::external_type_specification]
#[verifier::external_body]
pub struct ExFxBuildHasher(rustc_hash::FxBuildHasher);

/// `FxHashSet::default`: a set of offsets that holds nothing.
#[verifier::external_body]
fn empty_offsets() -> (offsets: FxHashSet<u32>)
    ensures
        offsets@ == Set::<u32>::empty(),
{
    FxHashSet::default()
}

/// `HashSet::insert` on a set of offsets: afterwards the set holds what it
/// held before and `offset`.
#[verifier::external_body]
fn insert_offset(offsets: &mut FxHashSet<u32>, offset: u32)
    ensures
        final(offsets)@ == old(offsets)@.insert(offset),
{
    offsets.insert(offset);
}

/// The arguments of a call or of a `new` expression; empty for other nodes.
pub open spec fn spec_arguments(kind: NodeKind) -> Seq<NodeId> {
    match kind {
        NodeKind::CallExpression { arguments, .. } => arguments@,
        NodeKind::NewExpression { arguments, .. } => arguments@,
        _ => Seq::empty(),
    }
}

/// The children of a node that the collector goes into. It follows the
/// statements and expressions in which calls commonly stand and passes over
/// the rest: the initializer of a `for` loop and the left side of an
/// assignment, for instance, are not searched.
pub open spec fn spec_searched_children(kind: NodeKind) -> Seq<NodeId> {
    match kind {
        NodeKind::Program { body } => body@,
        NodeKind::ExpressionStatement { expression } => seq![expression],
        NodeKind::BlockStatement { body } => body@,
        NodeKind::IfStatement { test, consequent, alternate } => seq![test, consequent]
            + option_seq(alternate),
        NodeKind::ForStatement { test, update, body, .. } => option_seq(test) + option_seq(update)
            + seq![body],
        NodeKind::WhileStatement { test, body } => seq![test, body],
        NodeKind::ReturnStatement { argument } => option_seq(argument),
        NodeKind::VariableDeclaration { declarations, .. } => declarations@,
        NodeKind::VariableDeclarator { init, .. } => option_seq(init),
        NodeKind::Function { body, .. } => option_seq(body),
        NodeKind::FunctionBody { statements } => statements@,
        NodeKind::CallExpression { callee, arguments, .. } => seq![callee] + arguments@,
        NodeKind::NewExpression { callee, arguments } => seq![callee] + arguments@,
        NodeKind::SpreadElement { argument } => seq![argument],
        NodeKind::ArrayExpression { elements } => elements@,
        NodeKind::ObjectExpression { properties } => properties@,
        NodeKind::ObjectProperty { value, .. } => seq![value],
        NodeKind::ArrowFunctionExpression { body, .. } => seq![body],
        NodeKind::BinaryExpression { left, right, .. } => seq![left, right],
        NodeKind::LogicalExpression { left, right, .. } => seq![left, right],
        NodeKind::UnaryExpression { argument, .. } => seq![argument],
        NodeKind::ConditionalExpression { test, consequent, alternate } => seq![
            test,
            consequent,
            alternate,
        ],
        NodeKind::AssignmentExpression { right, .. } => seq![right],
        NodeKind::SequenceExpression { expressions } => expressions@,
        NodeKind::AwaitExpression { argument } => seq![argument],
        NodeKind::YieldExpression { argument } => option_seq(argument),
        NodeKind::ParenthesizedExpression { expression } => seq![expression],
        _ => Seq::empty(),
    }
}

/// `offset` is where an argument of the node `id` itself begins.
pub open spec fn spec_is_argument_start(tree: AstView, id: NodeId, offset: u32) -> bool {
    exists|k: int|
        0 <= k < spec_arguments(tree.kind(id)).len() && (#[trigger] tree.span(
            spec_arguments(tree.kind(id))[k],
        )).start == offset
}

/// `offset` is where an argument begins, of some call or `new` expression
/// that the collector reaches from `id`.
pub open spec fn spec_collects(tree: AstView, id: NodeId, offset: u32) -> bool
    decreases id,
{
    spec_is_argument_start(tree, id, offset) || exists|k: int|
        0 <= k < spec_searched_children(tree.kind(id)).len() && (
        #[trigger] spec_searched_children(tree.kind(id))[k]) < id && spec_collects(
            tree,
            spec_searched_children(tree.kind(id))[k],
            offset,
        )
}

/// The children of a node that the collector goes into.
pub fn searched_children(kind: &NodeKind) -> (children: Vec<NodeId>)
    ensures
        children@ == spec_searched_children(*kind),
{
    let mut kids: Vec<NodeId> = Vec::new();
    match kind {
        NodeKind::Program { body } => {
            append(&mut kids, body);
        },
        NodeKind::ExpressionStatement { expression } => {
            append_one(&mut kids, *expression);
        },
        NodeKind::BlockStatement { body } => {
            append(&mut kids, body);
        },
        NodeKind::IfStatement { test, consequent, alternate } => {
            append_one(&mut kids, *test);
            append_one(&mut kids, *consequent);
            append_option(&mut kids, alternate);
        },
        NodeKind::ForStatement { test, update, body, .. } => {
            append_option(&mut kids, test);
            append_option(&mut kids, update);
            append_one(&mut kids, *body);
        },
        NodeKind::WhileStatement { test, body } => {
            append_one(&mut kids, *test);
            append_one(&mut kids, *body);
        },
        NodeKind::ReturnStatement { argument } => {
            append_option(&mut kids, argument);
        },
        NodeKind::VariableDeclaration { declarations, .. } => {
            append(&mut kids, declarations);
        },
        NodeKind::VariableDeclarator { init, .. } => {
            append_option(&mut kids, init);
        },
        NodeKind::Function { body, .. } => {
            append_option(&mut kids, body);
        },
        NodeKind::FunctionBody { statements } => {
            append(&mut kids, statements);
        },
        NodeKind::CallExpression { callee, arguments, .. } => {
            append_one(&mut kids, *callee);
            append(&mut kids, arguments);
        },
        NodeKind::NewExpression { callee, arguments } => {
            append_one(&mut kids, *callee);
            append(&mut kids, arguments);
        },
        NodeKind::SpreadElement { argument } => {
            append_one(&mut kids, *argument);
        },
        NodeKind::ArrayExpression { elements } => {
            append(&mut kids, elements);
        },
        NodeKind::ObjectExpression { properties } => {
            append(&mut kids, properties);
        },
        NodeKind::ObjectProperty { value, .. } => {
            append_one(&mut kids, *value);
        },
        NodeKind::ArrowFunctionExpression { body, .. } => {
            append_one(&mut kids, *body);
        },
        NodeKind::BinaryExpression { left, right, .. } => {
            append_one(&mut kids, *left);
            append_one(&mut kids, *right);
        },
        NodeKind::LogicalExpression { left, right, .. } => {
            append_one(&mut kids, *left);
            append_one(&mut kids, *right);
        },
        NodeKind::UnaryExpression { argument, .. } => {
            append_one(&mut kids, *argument);
        },
        NodeKind::ConditionalExpression { test, consequent, alternate } => {
            append_one(&mut kids, *test);
            append_one(&mut kids, *consequent);
            append_one(&mut kids, *alternate);
        },
        NodeKind::AssignmentExpression { right, .. } => {
            append_one(&mut kids, *right);
        },
        NodeKind::SequenceExpression { expressions } => {
            append(&mut kids, expressions);
        },
        NodeKind::AwaitExpression { argument } => {
            append_one(&mut kids, *argument);
        },
        NodeKind::YieldExpression { argument } => {
            append_option(&mut kids, argument);
        },
        NodeKind::ParenthesizedExpression { expression } => {
            append_one(&mut kids, *expression);
        },
        _ => {},
    }
    assert(kids@ =~= spec_searched_children(*kind));
    kids
}

/// `offset` is where one of the first `count` nodes of `arguments` begins.
pub open spec fn spec_starts_among(
    tree: AstView,
    arguments: Seq<NodeId>,
    count: int,
    offset: u32,
) -> bool {
    exists|k: int| 0 <= k < count && (#[trigger] tree.span(arguments[k])).start == offset
}

/// The collector, started at one of the first `count` nodes of `children`
/// that stand before `id`, finds `offset`.
pub open spec fn spec_collects_among(
    tree: AstView,
    id: NodeId,
    children: Seq<NodeId>,
    count: int,
    offset: u32,
) -> bool {
    exists|k: int|
        0 <= k < count && (#[trigger] children[k]) < id && spec_collects(tree, children[k], offset)
}

/// One more argument adds its own start to the starts found so far.
proof fn lemma_starts_among_step(tree: AstView, arguments: Seq<NodeId>, count: int, offset: u32)
    requires
        0 <= count < arguments.len(),
    ensures
        spec_starts_among(tree, arguments, count + 1, offset) <==> spec_starts_among(
            tree,
            arguments,
            count,
            offset,
        ) || tree.span(arguments[count]).start == offset,
{
    if spec_starts_among(tree, arguments, count + 1, offset) {
        let k = choose|k: int|
            0 <= k < count + 1 && (#[trigger] tree.span(arguments[k])).start == offset;
        if k < count {
            assert(tree.span(arguments[k]).start == offset);
        }
    }
    if spec_starts_among(tree, arguments, count, offset) {
        let k = choose|k: int| 0 <= k < count && (#[trigger] tree.span(arguments[k])).start == offset;
        assert(tree.span(arguments[k]).start == offset);
    }
    if tree.span(arguments[count]).start == offset {
        assert(spec_starts_among(tree, arguments, count + 1, offset));
    }
}

/// One more child adds what the collector finds from it to what was found
/// so far.
proof fn lemma_collects_among_step(
    tree: AstView,
    id: NodeId,
    children: Seq<NodeId>,
    count: int,
    offset: u32,
)
    requires
        0 <= count < children.len(),
    ensures
        spec_collects_among(tree, id, children, count + 1, offset) <==> spec_collects_among(
            tree,
            id,
            children,
            count,
            offset,
        ) || (children[count] < id && spec_collects(tree, children[count], offset)),
{
    if spec_collects_among(tree, id, children, count + 1, offset) {
        let k = choose|k: int|
            0 <= k < count + 1 && (#[trigger] children[k]) < id && spec_collects(
                tree,
                children[k],
                offset,
            );
        if k < count {
            assert(children[k] < id && spec_collects(tree, children[k], offset));
        }
    }
    if spec_collects_among(tree, id, children, count, offset) {
        let k = choose|k: int|
            0 <= k < count && (#[trigger] children[k]) < id && spec_collects(
                tree,
                children[k],
                offset,
            );
        assert(children[k] < id && spec_collects(tree, children[k], offset));
    }
    if children[count] < id && spec_collects(tree, children[count], offset) {
        assert(spec_collects_among(tree, id, children, count + 1, offset));
    }
}

/// The collector of argument offsets.
pub struct ArgumentCollector;

impl ArgumentCollector {
    /// The set of offsets at which an argument of a call or of a `new`
    /// expression begins, for every such expression that the collector
    /// reaches from `program`.
    pub fn collect(ast: &Ast, program: NodeId) -> (spans: FxHashSet<u32>)
        requires
            ast@.wf(),
            program < ast@.len(),
        ensures
            forall|offset: u32| spans@.contains(offset) <==> spec_collects(ast@, program, offset),
    {
        let mut spans = empty_offsets();
        Self::collect_from(ast, program, &mut spans);
        spans
    }

    /// Adds to `spans` the offsets that the collector finds from `id`.
    fn collect_from(ast: &Ast, id: NodeId, spans: &mut FxHashSet<u32>)
        requires
            ast@.wf(),
            id < ast@.len(),
        ensures
            forall|offset: u32|
                #[trigger] final(spans)@.contains(offset) <==> old(spans)@.contains(offset)
                    || spec_collects(ast@, id, offset),
        decreases id,
    {
        let kind = ast.kind(id);
        let ghost before = spans@;
        match kind {
            NodeKind::CallExpression { arguments, .. } => {
                Self::collect_starts(ast, id, arguments, spans);
            },
            NodeKind::NewExpression { arguments, .. } => {
                Self::collect_starts(ast, id, arguments, spans);
            },
            _ => {
                assert forall|offset: u32| !spec_is_argument_start(ast@, id, offset) by {}
            },
        }
        let children = searched_children(kind);
        let mut i: usize = 0;
        while i < children.len()
            invariant
                ast@.wf(),
                id < ast@.len(),
                i <= children.len(),
                children@ == spec_searched_children(ast@.kind(id)),
                forall|offset: u32|
                    #[trigger] spans@.contains(offset) <==> before.contains(offset)
                        || spec_is_argument_start(ast@, id, offset) || spec_collects_among(
                        ast@,
                        id,
                        children@,
                        i as int,
                        offset,
                    ),
            decreases children.len() - i,
        {
            let child = children[i];
            let ghost earlier = spans@;
            if child < id {
                Self::collect_from(ast, child, spans);
            }
            assert forall|offset: u32|
                #[trigger] spans@.contains(offset) <==> before.contains(offset)
                    || spec_is_argument_start(ast@, id, offset) || spec_collects_among(
                    ast@,
                    id,
                    children@,
                    i + 1,
                    offset,
                ) by {
                lemma_collects_among_step(ast@, id, children@, i as int, offset);
                assert(earlier.contains(offset) <==> before.contains(offset)
                    || spec_is_argument_start(ast@, id, offset) || spec_collects_among(
                    ast@,
                    id,
                    children@,
                    i as int,
                    offset,
                ));
            }
            i += 1;
        }
        assert forall|offset: u32|
            #[trigger] spans@.contains(offset) <==> before.contains(offset) || spec_collects(
                ast@,
                id,
                offset,
            ) by {
            assert(spec_collects_among(ast@, id, children@, children@.len() as int, offset)
                <==> exists|k: int|
                0 <= k < spec_searched_children(ast@.kind(id)).len() && (
                #[trigger] spec_searched_children(ast@.kind(id))[k]) < id && spec_collects(
                    ast@,
                    spec_searched_children(ast@.kind(id))[k],
                    offset,
                ));
        }
    }

    /// Adds to `spans` the offset at which each argument of the call `id`
    /// begins.
    fn collect_starts(ast: &Ast, id: NodeId, arguments: &Vec<NodeId>, spans: &mut FxHashSet<u32>)
        requires
            ast@.wf(),
            id < ast@.len(),
            arguments@ == spec_arguments(ast@.kind(id)),
        ensures
            forall|offset: u32|
                #[trigger] final(spans)@.contains(offset) <==> old(spans)@.contains(offset)
                    || spec_is_argument_start(ast@, id, offset),
    {
        let mut i: usize = 0;
        while i < arguments.len()
            invariant
                ast@.wf(),
                id < ast@.len(),
                i <= arguments.len(),
                arguments@ == spec_arguments(ast@.kind(id)),
                forall|k: int| 0 <= k < arguments.len() ==> (#[trigger] arguments@[k]) < ast@.len(),
                forall|offset: u32|
                    #[trigger] spans@.contains(offset) <==> old(spans)@.contains(offset)
                        || spec_starts_among(ast@, arguments@, i as int, offset),
            decreases arguments.len() - i,
        {
            let ghost earlier = spans@;
            let start = ast.span(arguments[i]).start;
            insert_offset(spans, start);
            assert forall|offset: u32|
                #[trigger] spans@.contains(offset) <==> old(spans)@.contains(offset)
                    || spec_starts_among(ast@, arguments@, i + 1, offset) by {
                lemma_starts_among_step(ast@, arguments@, i as int, offset);
                assert(earlier.contains(offset) <==> old(spans)@.contains(offset)
                    || spec_starts_among(ast@, arguments@, i as int, offset));
            }
            i += 1;
        }
        assert forall|offset: u32|
            #[trigger] spans@.contains(offset) <==> old(spans)@.contains(offset)
                || spec_is_argument_start(ast@, id, offset) by {
            assert(spec_starts_among(ast@, arguments@, arguments@.len() as int, offset)
                <==> spec_is_argument_start(ast@, id, offset));
        }
    }
}

} // verus!
