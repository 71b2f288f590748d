//! Finding the scopes that lie directly inside a node.
//!
//! The walk stops at every node that opens a scope: the scopes inside that
//! scope are not its concern.

use vstd::prelude::*;
use crate::ast::{Ast, AstView, NodeId, NodeKind};

verus! {

/// The number of a scope.
pub type ScopeId = u32;

/// The kinds of node that open a scope: a program, a block, a loop, a
/// `switch`, a `catch` clause, a function, an arrow function, a class, and
/// every node of [`NodeKind::ScopeOwner`].
pub open spec fn spec_opens_scope(kind: NodeKind) -> bool {
    kind is Program || kind is BlockStatement || kind is ForStatement || kind is ForInStatement
        || kind is ForOfStatement || kind is SwitchStatement || kind is CatchClause
        || kind is Function || kind is ArrowFunctionExpression || kind is Class
        || kind is ScopeOwner
}

/// Whether a node of this kind opens a scope.
pub fn opens_scope(kind: &NodeKind) -> (opens: bool)
    ensures
        opens == spec_opens_scope(*kind),
{
    match kind {
        NodeKind::Program { .. }
        | NodeKind::BlockStatement { .. }
        | NodeKind::ForStatement { .. }
        | NodeKind::ForInStatement { .. }
        | NodeKind::ForOfStatement { .. }
        | NodeKind::SwitchStatement { .. }
        | NodeKind::CatchClause { .. }
        | NodeKind::Function { .. }
        | NodeKind::ArrowFunctionExpression { .. }
        | NodeKind::Class { .. }
        | NodeKind::ScopeOwner { .. } => true,
        _ => false,
    }
}

/// Every node that opens a scope has the number of its scope in `scopes`.
pub open spec fn spec_scopes_known(tree: AstView, scopes: Seq<Option<ScopeId>>) -> bool {
    &&& scopes.len() == tree.len()
    &&& forall|id: int|
        0 <= id < tree.len() && spec_opens_scope((#[trigger] tree.nodes[id]).kind)
            ==> scopes[id] is Some
}

/// The scopes that lie directly inside the node `node`, in the order of the
/// source text.
pub open spec fn spec_child_scopes(
    tree: AstView,
    scopes: Seq<Option<ScopeId>>,
    node: NodeId,
) -> Seq<ScopeId>
    decreases node, tree.kind(node).spec_children().len() + 1,
{
    spec_child_scopes_among(
        tree,
        scopes,
        node,
        tree.kind(node).spec_children(),
        tree.kind(node).spec_children().len() as int,
    )
}

/// The scopes that lie directly inside the first `count` nodes of
/// `children`, or are opened by them. `children` are children of `parent`.
pub open spec fn spec_child_scopes_among(
    tree: AstView,
    scopes: Seq<Option<ScopeId>>,
    parent: NodeId,
    children: Seq<NodeId>,
    count: int,
) -> Seq<ScopeId>
    decreases parent, count,
{
    if count <= 0 || count > children.len() {
        Seq::empty()
    } else {
        let child = children[count - 1];
        spec_child_scopes_among(tree, scopes, parent, children, count - 1) + if child >= parent {
            Seq::empty()
        } else if spec_opens_scope(tree.kind(child)) {
            match scopes[child as int] {
                Some(scope) => seq![scope],
                None => Seq::empty(),
            }
        } else {
            spec_child_scopes(tree, scopes, child)
        }
    }
}

/// Visitor that locates all child scopes.
/// NB: Child scopes only, not grandchild scopes.
/// Does not do full traversal - stops each time it hits a node with a scope.
pub struct ChildScopeCollector {
    pub scope_ids: Vec<ScopeId>,
}

impl ChildScopeCollector {
    /// A collector that has found nothing yet.
    pub fn new() -> (collector: Self)
        ensures
            collector.scope_ids@ == Seq::<ScopeId>::empty(),
    {
        Self { scope_ids: Vec::new() }
    }

    /// Records the scope of a node that opens one.
    pub fn add_scope(&mut self, scope_id: Option<ScopeId>)
        requires
            scope_id is Some,
        ensures
            final(self).scope_ids@ == old(self).scope_ids@.push(scope_id->Some_0),
    {
        self.scope_ids.push(scope_id.unwrap());
    }

    /// Records the scopes that lie directly inside `node`.
    #[verifier::loop_isolation(false)]
    pub fn visit(&mut self, ast: &Ast, scopes: &Vec<Option<ScopeId>>, node: NodeId)
        requires
            ast@.wf(),
            node < ast@.len(),
            spec_scopes_known(ast@, scopes@),
        ensures
            final(self).scope_ids@ == old(self).scope_ids@ + spec_child_scopes(
                ast@,
                scopes@,
                node,
            ),
        decreases node,
    {
        let children = ast.kind(node).children();
        proof {
            ast@.kind(node).lemma_children_listed(|c: NodeId| ast@.is_child_of(c, node as int));
        }
        let mut i: usize = 0;
        assert(self.scope_ids@ =~= old(self).scope_ids@ + spec_child_scopes_among(
            ast@,
            scopes@,
            node,
            children@,
            0,
        ));
        while i < children.len()
            invariant
                i <= children.len(),
                self.scope_ids@ == old(self).scope_ids@ + spec_child_scopes_among(
                    ast@,
                    scopes@,
                    node,
                    children@,
                    i as int,
                ),
            decreases children.len() - i,
        {
            let child = children[i];
            assert(ast@.is_child_of(children@[i as int], node as int));
            let ghost before = self.scope_ids@;
            if opens_scope(ast.kind(child)) {
                assert(spec_opens_scope(ast@.nodes[child as int].kind));
                self.add_scope(scopes[child]);
            } else {
                self.visit(ast, scopes, child);
            }
            i += 1;
            assert(self.scope_ids@ =~= old(self).scope_ids@ + spec_child_scopes_among(
                ast@,
                scopes@,
                node,
                children@,
                i as int,
            ));
        }
    }
}

} // verus!
