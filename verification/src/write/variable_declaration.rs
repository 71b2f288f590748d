//! `let a = 1, b;` and its kin.

use vstd::prelude::*;
use crate::ast::{Ast, AstView, NodeId, NodeKind, VariableDeclarationKind};
use crate::comments::{spec_run_before, Comments};
use crate::document::{group, indent, space, text, FormatElement};
use crate::document::spec_is_text;

verus! {

impl VariableDeclarationKind {
    /// The keyword of the kind.
    pub open spec fn spec_as_str(self) -> Seq<char> {
        match self {
            VariableDeclarationKind::Var => "var"@,
            VariableDeclarationKind::Let => "let"@,
            VariableDeclarationKind::Const => "const"@,
            VariableDeclarationKind::Using => "using"@,
            VariableDeclarationKind::AwaitUsing => "await using"@,
        }
    }

    /// The keyword of the kind.
    pub fn as_str(self) -> (keyword: &'static str)
        ensures
            keyword@ == self.spec_as_str(),
    {
        match self {
            VariableDeclarationKind::Var => "var",
            VariableDeclarationKind::Let => "let",
            VariableDeclarationKind::Const => "const",
            VariableDeclarationKind::Using => "using",
            VariableDeclarationKind::AwaitUsing => "await using",
        }
    }

    /// `await using`.
    pub open spec fn spec_is_await(self) -> bool {
        self is AwaitUsing
    }

    /// Whether the kind is `await using`.
    pub fn is_await(self) -> (awaited: bool)
        ensures
            awaited == self.spec_is_await(),
    {
        matches!(self, VariableDeclarationKind::AwaitUsing)
    }

    /// `const`.
    pub open spec fn spec_is_const(self) -> bool {
        self is Const
    }

    /// Whether the kind is `const`.
    pub fn is_const(self) -> (constant: bool)
        ensures
            constant == self.spec_is_const(),
    {
        matches!(self, VariableDeclarationKind::Const)
    }
}

/// A declaration ends with a semicolon unless it is exported by name or is
/// the head of a loop: the initializer of a `for` statement, or the left
/// side of a `for-in` or `for-of` statement. Directly under a `for`
/// statement that has no initializer it has none either.
pub open spec fn spec_needs_semicolon(tree: AstView, id: NodeId) -> bool {
    match tree.parent_kind(id) {
        Some(NodeKind::ExportNamedDeclaration { .. }) => false,
        Some(NodeKind::ForStatement { init, .. }) => init matches Some(i) && tree.span(i)
            != tree.span(id),
        Some(NodeKind::ForInStatement { left, .. }) => tree.span(left) != tree.span(id),
        Some(NodeKind::ForOfStatement { left, .. }) => tree.span(left) != tree.span(id),
        _ => true,
    }
}

/// Whether the declaration `id` ends with a semicolon.
pub fn needs_semicolon(ast: &Ast, id: NodeId) -> (semicolon: bool)
    requires
        ast@.wf(),
        id < ast@.len(),
    ensures
        semicolon == spec_needs_semicolon(ast@, id),
{
    let span = ast.span(id);
    match ast.parent_kind(id) {
        Some(NodeKind::ExportNamedDeclaration { .. }) => false,
        Some(NodeKind::ForStatement { init, .. }) => match init {
            Some(i) => ast.span(*i) != span,
            None => false,
        },
        Some(NodeKind::ForInStatement { left, .. }) => ast.span(*left) != span,
        Some(NodeKind::ForOfStatement { left, .. }) => ast.span(*left) != span,
        _ => true,
    }
}

/// `element` is the document of a declaration: a group of the keyword, a
/// space, the declarators and, where one is due, the semicolon.
pub open spec fn spec_is_declaration_document(
    element: FormatElement,
    kind: VariableDeclarationKind,
    declarations: FormatElement,
    semicolon: bool,
) -> bool {
    &&& element matches FormatElement::Group(content)
    &&& *content matches FormatElement::Concat(items)
    &&& items@.len() == 4
    &&& spec_is_text(items@[0], kind.spec_as_str())
    &&& spec_is_text(items@[1], " "@)
    &&& items@[2] == declarations
    &&& spec_is_text(
        items@[3],
        if semicolon {
            ";"@
        } else {
            ""@
        },
    )
}

/// Builds the document of the declaration `id` from the document of its
/// declarators.
pub fn write(ast: &Ast, id: NodeId, declarations: FormatElement) -> (element: FormatElement)
    requires
        ast@.wf(),
        id < ast@.len(),
        ast@.kind(id) is VariableDeclaration,
    ensures
        ast@.kind(id) matches NodeKind::VariableDeclaration { kind, .. }
            && spec_is_declaration_document(
            element,
            kind,
            declarations,
            spec_needs_semicolon(ast@, id),
        ),
{
    let semicolon = needs_semicolon(ast, id);
    let keyword = match ast.kind(id) {
        NodeKind::VariableDeclaration { kind, .. } => kind.as_str(),
        _ => "",
    };
    let mut items: Vec<FormatElement> = Vec::new();
    items.push(text(keyword));
    items.push(space());
    items.push(declarations);
    items.push(text(if semicolon {
        ";"
    } else {
        ""
    }));
    group(FormatElement::Concat(items))
}

/// The declaration `id` is the head of a loop.
pub open spec fn spec_is_loop_head(tree: AstView, id: NodeId) -> bool {
    tree.parent_kind(id) matches Some(kind) && (kind is ForStatement || kind is ForInStatement
        || kind is ForOfStatement)
}

/// Some declarator of `declarators` has an initializer.
pub open spec fn spec_has_any_initializer(tree: AstView, declarators: Seq<NodeId>) -> bool {
    exists|k: int| 0 <= k < declarators.len() && #[trigger] spec_has_initializer(tree, declarators[k])
}

/// The declarator has an initializer.
pub open spec fn spec_has_initializer(tree: AstView, declarator: NodeId) -> bool {
    tree.kind(declarator) matches NodeKind::VariableDeclarator { init: Some(_), .. }
}

/// What separates two declarators: a line break in any case where some
/// declarator is initialized and the declaration is no loop head; otherwise
/// a space that becomes a line break only where the declaration is broken.
pub open spec fn spec_separator(tree: AstView, id: NodeId) -> FormatElement {
    if !spec_is_loop_head(tree, id) && (tree.kind(id) matches NodeKind::VariableDeclaration {
        declarations,
        ..
    } && spec_has_any_initializer(tree, declarations@)) {
        FormatElement::HardLineBreak
    } else {
        FormatElement::SoftLineBreakOrSpace
    }
}

/// `element` is the document of the declarators of the declaration `id`,
/// whose own documents are `documents`.
///
/// A single declarator with no comment due before it stands alone.
/// Otherwise the declarators are indented as a whole; each but the last is
/// followed by a comma and the separator.
pub open spec fn spec_is_declarators_document(
    element: FormatElement,
    tree: AstView,
    id: NodeId,
    documents: Seq<FormatElement>,
    comment_due: bool,
) -> bool {
    if documents.len() == 1 && !comment_due {
        element == documents[0]
    } else {
        &&& element matches FormatElement::Indent(content)
        &&& *content matches FormatElement::Concat(items)
        &&& items@.len() == 3 * documents.len() - 2
        &&& forall|i: int| 0 <= i < documents.len() ==> #[trigger] items@[3 * i] == documents[i]
        &&& forall|i: int|
            0 <= i < documents.len() - 1 ==> spec_is_text(#[trigger] items@[3 * i + 1], ","@)
        &&& forall|i: int|
            0 <= i < documents.len() - 1 ==> #[trigger] items@[3 * i + 2] == spec_separator(
                tree,
                id,
            )
    }
}

/// Whether some declarator of `declarators` has an initializer.
fn has_any_initializer(ast: &Ast, declarators: &Vec<NodeId>) -> (found: bool)
    requires
        ast@.wf(),
        forall|k: int| 0 <= k < declarators.len() ==> (#[trigger] declarators@[k]) < ast@.len(),
    ensures
        found == spec_has_any_initializer(ast@, declarators@),
{
    let mut i: usize = 0;
    while i < declarators.len()
        invariant
            i <= declarators.len(),
            forall|k: int| 0 <= k < declarators.len() ==> (#[trigger] declarators@[k]) < ast@.len(),
            forall|k: int| 0 <= k < i ==> !#[trigger] spec_has_initializer(ast@, declarators@[k]),
        decreases declarators.len() - i,
    {
        if let NodeKind::VariableDeclarator { init: Some(_), .. } = ast.kind(declarators[i]) {
            assert(spec_has_initializer(ast@, declarators@[i as int]));
            return true;
        }
        i += 1;
    }
    false
}

/// Builds the document of the declarators of the declaration `id` from
/// their own documents, in the order of the declarators.
pub fn fmt(ast: &Ast, id: NodeId, documents: Vec<FormatElement>, comments: &Comments) -> (element:
    FormatElement)
    requires
        ast@.wf(),
        id < ast@.len(),
        comments@.wf(),
        ast@.kind(id) matches NodeKind::VariableDeclaration { declarations, .. }
            && declarations@.len() == documents@.len(),
        documents@.len() >= 1,
    ensures
        ast@.kind(id) matches NodeKind::VariableDeclaration { declarations, .. }
            && spec_is_declarators_document(
            element,
            ast@,
            id,
            documents@,
            spec_run_before(
                comments@.comments,
                comments@.printed as int,
                ast@.span(declarations@[0]).start,
            ) > 0,
        ),
{
    let declarators = match ast.kind(id) {
        NodeKind::VariableDeclaration { declarations, .. } => declarations,
        _ => vstd::pervasive::unreached(),
    };
    let length = documents.len();
    let is_parent_for_loop = match ast.parent_kind(id) {
        Some(NodeKind::ForStatement { .. })
        | Some(NodeKind::ForInStatement { .. })
        | Some(NodeKind::ForOfStatement { .. }) => true,
        _ => false,
    };
    let hard = !is_parent_for_loop && has_any_initializer(ast, declarators);
    let comment_due = comments.has_comments_before(ast.span(declarators[0]).start);
    let mut rest = documents;
    if length == 1 && !comment_due {
        let only = rest.pop().unwrap();
        assert(only == documents@[0]);
        return only;
    }
    // Build from the last declarator to the first, then turn the list round.
    let mut turned: Vec<FormatElement> = Vec::new();
    while rest.len() > 0
        invariant
            rest@.len() <= documents@.len(),
            length == documents@.len(),
            rest@ == documents@.subrange(0, rest@.len() as int),
            hard == (spec_separator(ast@, id) == FormatElement::HardLineBreak),
            !hard == (spec_separator(ast@, id) == FormatElement::SoftLineBreakOrSpace),
            turned@.len() == if rest@.len() == length {
                0
            } else {
                3 * (length - rest@.len()) - 2
            },
            forall|i: int|
                rest@.len() <= i < length ==> #[trigger] turned@[3 * (length - 1 - i)]
                    == documents@[i],
            forall|i: int|
                rest@.len() <= i < length - 1 ==> spec_is_text(
                    #[trigger] turned@[3 * (length - 1 - i) - 1],
                    ","@,
                ),
            forall|i: int|
                rest@.len() <= i < length - 1 ==> #[trigger] turned@[3 * (length - 1 - i) - 2]
                    == spec_separator(ast@, id),
        decreases rest.len(),
    {
        let index = rest.len() - 1;
        let document = rest.pop().unwrap();
        assert(document == documents@[index as int]);
        assert(rest@ =~= documents@.subrange(0, rest@.len() as int));
        let ghost earlier = turned@;
        if index < length - 1 {
            turned.push(
                if hard {
                    FormatElement::HardLineBreak
                } else {
                    FormatElement::SoftLineBreakOrSpace
                },
            );
            turned.push(text(","));
        }
        turned.push(document);
        assert forall|i: int| rest@.len() <= i < length implies #[trigger] turned@[3 * (length - 1
            - i)] == documents@[i] by {
            if i > index {
                assert(turned@[3 * (length - 1 - i)] == earlier[3 * (length - 1 - i)]);
            }
        }
        assert forall|i: int| rest@.len() <= i < length - 1 implies spec_is_text(
            #[trigger] turned@[3 * (length - 1 - i) - 1],
            ","@,
        ) by {
            if i > index {
                assert(turned@[3 * (length - 1 - i) - 1] == earlier[3 * (length - 1 - i) - 1]);
            }
        }
        assert forall|i: int| rest@.len() <= i < length - 1 implies #[trigger] turned@[3 * (length
            - 1 - i) - 2] == spec_separator(ast@, id) by {
            if i > index {
                assert(turned@[3 * (length - 1 - i) - 2] == earlier[3 * (length - 1 - i) - 2]);
            }
        }
    }
    let mut items: Vec<FormatElement> = Vec::new();
    let ghost built = turned@;
    while turned.len() > 0
        invariant
            turned@.len() <= built.len(),
            turned@ == built.subrange(0, turned@.len() as int),
            items@ == built.reverse().subrange(0, built.len() - turned@.len()),
        decreases turned.len(),
    {
        let next = turned.pop().unwrap();
        items.push(next);
        assert(turned@ =~= built.subrange(0, turned@.len() as int));
        assert(items@ =~= built.reverse().subrange(0, built.len() - turned@.len()));
    }
    assert(items@ =~= built.reverse());
    assert forall|i: int| 0 <= i < length implies #[trigger] items@[3 * i] == documents@[i] by {
        assert(items@[3 * i] == built[3 * (length - 1 - i)]);
    }
    assert forall|i: int| 0 <= i < length - 1 implies spec_is_text(
        #[trigger] items@[3 * i + 1],
        ","@,
    ) by {
        assert(items@[3 * i + 1] == built[3 * (length - 1 - i) - 1]);
    }
    assert forall|i: int| 0 <= i < length - 1 implies #[trigger] items@[3 * i + 2]
        == spec_separator(ast@, id) by {
        assert(items@[3 * i + 2] == built[3 * (length - 1 - i) - 2]);
    }
    indent(FormatElement::Concat(items))
}

} // verus!
