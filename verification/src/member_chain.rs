//! Chains of member accesses and calls: `a.b().c[d]!.e()`.
//!
//! A chain is read from its outermost expression down to the expression it
//! starts with, and listed from that start on. Each link knows what it is, and
//! a call also knows where in the chain it stands.

use vstd::prelude::*;
use vstd::string::*;
use crate::ast::{Ast, AstView, NodeId, NodeKind};
use crate::comments::{spec_run_before, spec_run_between, Comments, CommentsView};
use crate::document::{spec_is_text, text, FormatElement};
use crate::error::InvariantViolation;
use crate::trivia::{
    format_leading_comments,
    format_trailing_comments,
    spec_all_fit,
    spec_comment_fits,
    spec_is_leading_document,
    spec_is_trailing_document,
};
use crate::utils::{is_long_curried_call, spec_is_long_curried_call};
use crate::text::{
    find_line_comment,
    is_white_space,
    line_end,
    spec_find_line_comment,
    spec_is_white_space,
    spec_line_end,
};

verus! {

/// Where a call stands in its chain.
#[derive(Copy, Clone, Debug, PartialEq, Eq, Structural)]
pub enum CallExpressionPosition {
    /// At the start of a call chain.
    /// `of` in `of().test`
    Start,
    /// Somewhere in the middle.
    ///
    /// `b` in `a.b().c()`
    Middle,
    /// At the end of a call chain (root)
    /// `c` in `a.b.c()`
    End,
}

/// One link of a chain, by the node that it stands for.
#[derive(Copy, Clone, Debug, PartialEq, Eq, Structural)]
pub enum ChainMember {
    /// `.property`
    StaticMember(NodeId),
    /// `(arguments)`
    CallExpression { expression: NodeId, position: CallExpressionPosition },
    /// `[expression]`
    ComputedMember(NodeId),
    /// `!`
    TSNonNullExpression(NodeId),
    /// Any other node: the expression that the chain starts with.
    Node(NodeId),
}

impl ChainMember {
    /// The link is a call.
    pub open spec fn spec_is_call_expression(self) -> bool {
        self is CallExpression
    }

    /// Whether the link is a call.
    pub fn is_call_expression(&self) -> (call: bool)
        ensures
            call == self.spec_is_call_expression(),
    {
        matches!(self, ChainMember::CallExpression { .. })
    }

    /// The link is a computed member access.
    pub open spec fn spec_is_computed_expression(self) -> bool {
        self is ComputedMember
    }

    /// Whether the link is a computed member access.
    pub fn is_computed_expression(&self) -> (computed: bool)
        ensures
            computed == self.spec_is_computed_expression(),
    {
        matches!(self, ChainMember::ComputedMember { .. })
    }

    /// The node that the link stands for.
    pub open spec fn spec_node(self) -> NodeId {
        match self {
            ChainMember::StaticMember(id) => id,
            ChainMember::CallExpression { expression, .. } => expression,
            ChainMember::ComputedMember(id) => id,
            ChainMember::TSNonNullExpression(id) => id,
            ChainMember::Node(id) => id,
        }
    }

    /// The node that the link stands for.
    pub fn node(&self) -> (id: NodeId)
        ensures
            id == self.spec_node(),
    {
        match self {
            ChainMember::StaticMember(id) => *id,
            ChainMember::CallExpression { expression, .. } => *expression,
            ChainMember::ComputedMember(id) => *id,
            ChainMember::TSNonNullExpression(id) => *id,
            ChainMember::Node(id) => *id,
        }
    }

    /// A static member has a trailing line comment on its line when, after
    /// its property and on the same line, there is white space and then `//`.
    /// Other links are never said to have one.
    pub open spec fn spec_has_same_line_trailing_comment(
        self,
        tree: AstView,
        source: Seq<u8>,
    ) -> bool {
        &&& self matches ChainMember::StaticMember(id)
        &&& tree.kind(id) matches NodeKind::StaticMemberExpression { property, .. }
        &&& spec_find_line_comment(
            source,
            tree.span(property).end as int,
            spec_line_end(source, tree.span(property).end as int),
        ) matches Some(comment)
        &&& comment > tree.span(property).end
        &&& spec_is_white_space(source, tree.span(property).end as int, comment)
    }

    /// Check if this member has a trailing line comment on the same line
    pub fn has_same_line_trailing_comment(&self, ast: &Ast, source: &[u8]) -> (found: bool)
        requires
            ast@.wf(),
            ast@.fits(source@.len()),
            self.spec_node() < ast@.len(),
        ensures
            found == self.spec_has_same_line_trailing_comment(ast@, source@),
    {
        match self {
            ChainMember::StaticMember(id) => {
                if let NodeKind::StaticMemberExpression { property, .. } = ast.kind(*id) {
                    let member_end = ast.span(*property).end as usize;
                    let end_of_line = line_end(source, member_end);
                    match find_line_comment(source, member_end, end_of_line) {
                        Some(comment) => comment > member_end && is_white_space(
                            source,
                            member_end,
                            comment,
                        ),
                        None => false,
                    }
                } else {
                    false
                }
            },
            _ => false,
        }
    }
}

/// The kinds of node that make up a chain.
pub open spec fn spec_is_chain_kind(kind: NodeKind) -> bool {
    kind is StaticMemberExpression || kind is ComputedMemberExpression || kind is CallExpression
        || kind is TSNonNullExpression
}

/// Whether a node of this kind is a link of a chain.
pub fn is_chain_kind(kind: &NodeKind) -> (chain: bool)
    ensures
        chain == spec_is_chain_kind(*kind),
{
    match kind {
        NodeKind::StaticMemberExpression { .. }
        | NodeKind::ComputedMemberExpression { .. }
        | NodeKind::CallExpression { .. }
        | NodeKind::TSNonNullExpression { .. } => true,
        _ => false,
    }
}

/// The link that the node `id` is in the chain whose outermost expression is
/// `root`. A call is the end of the chain where it is `root`, its start where
/// its callee is no link, and in its middle otherwise.
pub open spec fn spec_link(tree: AstView, root: NodeId, id: NodeId) -> ChainMember {
    match tree.kind(id) {
        NodeKind::StaticMemberExpression { .. } => ChainMember::StaticMember(id),
        NodeKind::ComputedMemberExpression { .. } => ChainMember::ComputedMember(id),
        NodeKind::TSNonNullExpression { .. } => ChainMember::TSNonNullExpression(id),
        NodeKind::CallExpression { callee, .. } => ChainMember::CallExpression {
            expression: id,
            position: if id == root {
                CallExpressionPosition::End
            } else if !spec_is_chain_kind(tree.kind(callee)) {
                CallExpressionPosition::Start
            } else {
                CallExpressionPosition::Middle
            },
        },
        _ => ChainMember::Node(id),
    }
}

/// The node that the chain goes on with below `id`: the object of a member
/// access, the operand of a non-null assertion, the callee of a call if that
/// is a link itself. `None` where the chain starts at `id`.
pub open spec fn spec_next_link(tree: AstView, id: NodeId) -> Option<NodeId> {
    match tree.kind(id) {
        NodeKind::StaticMemberExpression { object, .. } => Some(object),
        NodeKind::ComputedMemberExpression { object, .. } => Some(object),
        NodeKind::TSNonNullExpression { expression } => Some(expression),
        NodeKind::CallExpression { callee, .. } => if spec_is_chain_kind(tree.kind(callee)) {
            Some(callee)
        } else {
            None
        },
        _ => None,
    }
}

/// The links of the chain with the outermost expression `root`, from the
/// start of the chain up to the node `id`.
pub open spec fn spec_chain_members(tree: AstView, root: NodeId, id: NodeId) -> Seq<ChainMember>
    decreases id,
{
    match spec_next_link(tree, id) {
        Some(below) if below < id => spec_chain_members(tree, root, below).push(
            spec_link(tree, root, id),
        ),
        _ => seq![spec_link(tree, root, id)],
    }
}

/// Lists the links of the chain whose outermost expression is `root`, from
/// the expression that the chain starts with to `root` itself.
pub fn chain_members(ast: &Ast, root: NodeId) -> (members: Vec<ChainMember>)
    requires
        ast@.wf(),
        root < ast@.len(),
    ensures
        members@ == spec_chain_members(ast@, root, root),
        members@.len() >= 1,
        forall|k: int| 0 <= k < members@.len() ==> (#[trigger] members@[k]).spec_node() <= root,
{
    let mut outward: Vec<ChainMember> = Vec::new();
    let mut current = root;
    assert(spec_chain_members(ast@, root, root) =~= spec_chain_members(ast@, root, current)
        + outward@.reverse());
    loop
        invariant_except_break
            spec_chain_members(ast@, root, root) == spec_chain_members(ast@, root, current)
                + outward@.reverse(),
        invariant
            ast@.wf(),
            current <= root < ast@.len(),
            forall|k: int| 0 <= k < outward@.len() ==> (#[trigger] outward@[k]).spec_node() <= root,
        ensures
            spec_chain_members(ast@, root, root) == outward@.reverse(),
            outward@.len() >= 1,
        decreases current,
    {
        let (link, below) = match ast.kind(current) {
            NodeKind::StaticMemberExpression { object, .. } => (
                ChainMember::StaticMember(current),
                Some(*object),
            ),
            NodeKind::ComputedMemberExpression { object, .. } => (
                ChainMember::ComputedMember(current),
                Some(*object),
            ),
            NodeKind::TSNonNullExpression { expression } => (
                ChainMember::TSNonNullExpression(current),
                Some(*expression),
            ),
            NodeKind::CallExpression { callee, .. } => {
                let callee_is_link = is_chain_kind(ast.kind(*callee));
                let position = if current == root {
                    CallExpressionPosition::End
                } else if !callee_is_link {
                    CallExpressionPosition::Start
                } else {
                    CallExpressionPosition::Middle
                };
                (
                    ChainMember::CallExpression { expression: current, position },
                    if callee_is_link {
                        Some(*callee)
                    } else {
                        None
                    },
                )
            },
            _ => (ChainMember::Node(current), None),
        };
        let ghost before = outward@;
        outward.push(link);
        proof {
            assert(outward@.reverse() =~= seq![link] + before.reverse());
        }
        match below {
            Some(next) => {
                assert(spec_chain_members(ast@, root, current) =~= spec_chain_members(
                    ast@,
                    root,
                    next,
                ) + seq![link]);
                assert(spec_chain_members(ast@, root, next) + outward@.reverse()
                    =~= spec_chain_members(ast@, root, current) + before.reverse());
                current = next;
            },
            None => {
                assert(spec_chain_members(ast@, root, current) =~= seq![link]);
                assert(outward@.reverse() =~= seq![link] + before.reverse());
                break ;
            },
        }
    }
    let mut members: Vec<ChainMember> = Vec::new();
    let mut i = outward.len();
    while i > 0
        invariant
            i <= outward.len(),
            members@ == outward@.reverse().subrange(0, outward.len() - i),
        decreases i,
    {
        i -= 1;
        members.push(outward[i]);
        assert(members@ =~= outward@.reverse().subrange(0, outward.len() - i));
    }
    assert(members@ =~= outward@.reverse());
    members
}

/// The documents of the parts of one link: what the link holds, as
/// whoever formats the link's children has built it, and the comments
/// around the link, as [`ChainMember::format_parts`] builds them.
pub struct ChainMemberParts {
    /// The comments that stand before the link.
    pub leading_comments: FormatElement,
    /// What the link holds: the property of a static member, the expression
    /// of a computed member, the type arguments and arguments of a call, the
    /// whole expression of a call at the start of its chain or of another
    /// node. Unused for a non-null assertion.
    pub inner: FormatElement,
    /// The comments that stand after the link.
    pub trailing_comments: FormatElement,
}

/// The link `id` is written with `?.`.
pub open spec fn spec_is_optional(tree: AstView, id: NodeId) -> bool {
    match tree.kind(id) {
        NodeKind::StaticMemberExpression { optional, .. } => optional,
        NodeKind::ComputedMemberExpression { optional, .. } => optional,
        NodeKind::CallExpression { optional, .. } => optional,
        _ => false,
    }
}

/// Whether the link `id` is written with `?.`.
pub fn is_optional(ast: &Ast, id: NodeId) -> (optional: bool)
    requires
        id < ast@.len(),
    ensures
        optional == spec_is_optional(ast@, id),
{
    match ast.kind(id) {
        NodeKind::StaticMemberExpression { optional, .. } => *optional,
        NodeKind::ComputedMemberExpression { optional, .. } => *optional,
        NodeKind::CallExpression { optional, .. } => *optional,
        _ => false,
    }
}

impl ChainMember {
    /// `element` is the document of the link:
    ///
    /// - a static member: its leading comments, `.` or `?.`, its property,
    ///   its trailing comments;
    /// - a non-null assertion: its leading comments, `!`, its trailing
    ///   comments;
    /// - a call at the start of its chain, and any other node: the whole
    ///   expression;
    /// - a call in the middle: its leading comments, `?.` if it is optional,
    ///   its arguments, its trailing comments;
    /// - a call at the end: `?.` if it is optional, and its arguments;
    /// - a computed member: its leading comments, `[` or `?.[`, its
    ///   expression, `]`, its trailing comments.
    pub open spec fn spec_is_formatted(
        self,
        tree: AstView,
        parts: ChainMemberParts,
        element: FormatElement,
    ) -> bool {
        let optional = spec_is_optional(tree, self.spec_node());
        match self {
            ChainMember::StaticMember(_) => {
                &&& element matches FormatElement::Concat(items)
                &&& items@.len() == 4
                &&& items@[0] == parts.leading_comments
                &&& spec_is_text(
                    items@[1],
                    if optional {
                        "?."@
                    } else {
                        "."@
                    },
                )
                &&& items@[2] == parts.inner
                &&& items@[3] == parts.trailing_comments
            },
            ChainMember::TSNonNullExpression(_) => {
                &&& element matches FormatElement::Concat(items)
                &&& items@.len() == 3
                &&& items@[0] == parts.leading_comments
                &&& spec_is_text(items@[1], "!"@)
                &&& items@[2] == parts.trailing_comments
            },
            ChainMember::CallExpression { position: CallExpressionPosition::Start, .. } => element
                == parts.inner,
            ChainMember::CallExpression { position: CallExpressionPosition::Middle, .. } => {
                &&& element matches FormatElement::Concat(items)
                &&& items@.len() == 4
                &&& items@[0] == parts.leading_comments
                &&& spec_is_text(
                    items@[1],
                    if optional {
                        "?."@
                    } else {
                        ""@
                    },
                )
                &&& items@[2] == parts.inner
                &&& items@[3] == parts.trailing_comments
            },
            ChainMember::CallExpression { position: CallExpressionPosition::End, .. } => {
                &&& element matches FormatElement::Concat(items)
                &&& items@.len() == 2
                &&& spec_is_text(
                    items@[0],
                    if optional {
                        "?."@
                    } else {
                        ""@
                    },
                )
                &&& items@[1] == parts.inner
            },
            ChainMember::ComputedMember(_) => {
                &&& element matches FormatElement::Concat(items)
                &&& items@.len() == 5
                &&& items@[0] == parts.leading_comments
                &&& spec_is_text(
                    items@[1],
                    if optional {
                        "?.["@
                    } else {
                        "["@
                    },
                )
                &&& items@[2] == parts.inner
                &&& spec_is_text(items@[3], "]"@)
                &&& items@[4] == parts.trailing_comments
            },
            ChainMember::Node(_) => element == parts.inner,
        }
    }

    /// Builds the document of the link from the documents of its parts.
    pub fn fmt(&self, ast: &Ast, parts: ChainMemberParts) -> (element: FormatElement)
        requires
            self.spec_node() < ast@.len(),
        ensures
            self.spec_is_formatted(ast@, parts, element),
    {
        let optional = is_optional(ast, self.node());
        let ChainMemberParts { leading_comments, inner, trailing_comments } = parts;
        match self {
            ChainMember::StaticMember(_) => {
                let mut items: Vec<FormatElement> = Vec::new();
                items.push(leading_comments);
                items.push(
                    text(
                        if optional {
                            "?."
                        } else {
                            "."
                        },
                    ),
                );
                items.push(inner);
                items.push(trailing_comments);
                FormatElement::Concat(items)
            },
            ChainMember::TSNonNullExpression(_) => {
                let mut items: Vec<FormatElement> = Vec::new();
                items.push(leading_comments);
                items.push(text("!"));
                items.push(trailing_comments);
                FormatElement::Concat(items)
            },
            ChainMember::CallExpression { position, .. } => match position {
                CallExpressionPosition::Start => inner,
                CallExpressionPosition::Middle => {
                    let mut items: Vec<FormatElement> = Vec::new();
                    items.push(leading_comments);
                    items.push(
                        text(
                            if optional {
                                "?."
                            } else {
                                ""
                            },
                        ),
                    );
                    items.push(inner);
                    items.push(trailing_comments);
                    FormatElement::Concat(items)
                },
                CallExpressionPosition::End => {
                    let mut items: Vec<FormatElement> = Vec::new();
                    items.push(
                        text(
                            if optional {
                                "?."
                            } else {
                                ""
                            },
                        ),
                    );
                    items.push(inner);
                    FormatElement::Concat(items)
                },
            },
            ChainMember::ComputedMember(_) => {
                let mut items: Vec<FormatElement> = Vec::new();
                items.push(leading_comments);
                items.push(
                    text(
                        if optional {
                            "?.["
                        } else {
                            "["
                        },
                    ),
                );
                items.push(inner);
                items.push(text("]"));
                items.push(trailing_comments);
                FormatElement::Concat(items)
            },
            ChainMember::Node(_) => inner,
        }
    }
}

/// The offset `at`, or the largest offset that a span can hold where `at`
/// lies beyond it.
pub open spec fn spec_span_offset(at: int) -> u32 {
    if at > u32::MAX {
        u32::MAX
    } else {
        at as u32
    }
}

impl ChainMember {
    /// The link is printed with the comments around it: a static member, a
    /// computed member, a non-null assertion and a call in the middle of its
    /// chain. The comments around a call at the start of its chain, and
    /// around any other node, belong to the whole expression; a call at the
    /// end of its chain has none of its own.
    pub open spec fn spec_has_own_comments(self) -> bool {
        match self {
            ChainMember::StaticMember(_)
            | ChainMember::ComputedMember(_)
            | ChainMember::TSNonNullExpression(_) => true,
            ChainMember::CallExpression { position, .. } => position
                == CallExpressionPosition::Middle,
            ChainMember::Node(_) => false,
        }
    }

    /// Whether the link is printed with the comments around it.
    pub fn has_own_comments(&self) -> (own: bool)
        ensures
            own == self.spec_has_own_comments(),
    {
        match self {
            ChainMember::StaticMember(_)
            | ChainMember::ComputedMember(_)
            | ChainMember::TSNonNullExpression(_) => true,
            ChainMember::CallExpression { position, .. } => match position {
                CallExpressionPosition::Middle => true,
                _ => false,
            },
            ChainMember::Node(_) => false,
        }
    }

    /// The offset before which the comments that lead the link end: the
    /// start of the property of a static member, the start of the node of
    /// any other link.
    pub open spec fn spec_leading_position(self, tree: AstView) -> u32 {
        match self {
            ChainMember::StaticMember(id) => match tree.kind(id) {
                NodeKind::StaticMemberExpression { property, .. } => tree.span(property).start,
                _ => tree.span(id).start,
            },
            _ => tree.span(self.spec_node()).start,
        }
    }

    /// The offset before which the comments that lead the link end.
    pub fn leading_position(&self, ast: &Ast) -> (position: u32)
        requires
            ast@.wf(),
            self.spec_node() < ast@.len(),
        ensures
            position == self.spec_leading_position(ast@),
    {
        match self {
            ChainMember::StaticMember(id) => match ast.kind(*id) {
                NodeKind::StaticMemberExpression { property, .. } => ast.span(*property).start,
                _ => ast.span(*id).start,
            },
            _ => ast.span(self.node()).start,
        }
    }

    /// The number of comments that lead the link: none where the link has
    /// no comments of its own, else the unprinted comments, one after
    /// another, that end before [`Self::spec_leading_position`].
    pub open spec fn spec_leading_count(self, tree: AstView, table: CommentsView) -> int {
        if self.spec_has_own_comments() {
            spec_run_before(
                table.comments,
                table.printed as int,
                self.spec_leading_position(tree),
            ) as int
        } else {
            0
        }
    }

    /// The number of comments that trail the link: none where the link has
    /// no comments of its own, else the comments that follow the leading
    /// ones, one after another, and lie between the end of the link and the
    /// end of the line on which it ends.
    pub open spec fn spec_trailing_count(
        self,
        tree: AstView,
        table: CommentsView,
        source: Seq<u8>,
    ) -> int {
        let end = tree.span(self.spec_node()).end;
        if self.spec_has_own_comments() {
            spec_run_between(
                table.comments,
                table.printed + self.spec_leading_count(tree, table),
                end,
                spec_span_offset(spec_line_end(source, end as int)),
            ) as int
        } else {
            0
        }
    }

    /// The outcome of building the parts of the link from `inner` and from
    /// the comments around the link.
    ///
    /// Where every comment of the link can be cut out of the text, the
    /// parts are built: the leading comments in their order, `inner` as it
    /// was given, the trailing comments in their order; and just these
    /// comments are marked as printed. Otherwise the first comment that
    /// cannot be cut out is reported; the comments before it are marked,
    /// and neither it nor any comment after it.
    pub open spec fn spec_has_parts(
        self,
        tree: AstView,
        before: CommentsView,
        after: CommentsView,
        source: Seq<u8>,
        inner: FormatElement,
        outcome: Result<ChainMemberParts, InvariantViolation>,
    ) -> bool {
        let first = before.printed as int;
        let leading = self.spec_leading_count(tree, before);
        let trailing = self.spec_trailing_count(tree, before, source);
        &&& after.comments == before.comments
        &&& match outcome {
            Ok(parts) => {
                &&& spec_all_fit(source, before.comments, first, leading + trailing)
                &&& after.printed == first + leading + trailing
                &&& spec_is_leading_document(
                    parts.leading_comments,
                    source,
                    before.comments,
                    first,
                    leading,
                )
                &&& parts.inner == inner
                &&& spec_is_trailing_document(
                    parts.trailing_comments,
                    source,
                    before.comments,
                    first + leading,
                    trailing,
                )
            },
            Err(violation) => {
                &&& first <= after.printed < first + leading + trailing
                &&& spec_all_fit(source, before.comments, first, after.printed - first)
                &&& !spec_comment_fits(source, before.comments[after.printed as int])
                &&& violation == (InvariantViolation::SpanContainment {
                    span: before.comments[after.printed as int].span,
                })
            },
        }
    }

    /// Builds the parts of the link: `inner`, and the documents of the
    /// comments that lead and trail the link, which are marked as printed.
    /// The run ends at the first comment that cannot be cut out of the
    /// text, and nothing is marked from that comment on.
    pub fn format_parts(
        &self,
        ast: &Ast,
        comments: &mut Comments,
        source: &str,
        inner: FormatElement,
    ) -> (outcome: Result<ChainMemberParts, InvariantViolation>)
        requires
            ast@.wf(),
            ast@.fits(source.spec_bytes().len()),
            self.spec_node() < ast@.len(),
            old(comments)@.wf(),
        ensures
            final(comments)@.wf(),
            self.spec_has_parts(
                ast@,
                old(comments)@,
                final(comments)@,
                source.spec_bytes(),
                inner,
                outcome,
            ),
    {
        if !self.has_own_comments() {
            return Ok(
                ChainMemberParts {
                    leading_comments: FormatElement::Concat(Vec::new()),
                    inner,
                    trailing_comments: FormatElement::Concat(Vec::new()),
                },
            );
        }
        let ghost before = comments@;
        let ghost first = before.printed as int;
        let ghost leading = self.spec_leading_count(ast@, before);
        let ghost trailing = self.spec_trailing_count(ast@, before, source.spec_bytes());
        let end = ast.span(self.node()).end;
        let end_of_line = line_end(source.as_bytes(), end as usize);
        let next: u32 = if end_of_line > u32::MAX as usize {
            u32::MAX
        } else {
            end_of_line as u32
        };
        let leading_comments = match format_leading_comments(
            comments,
            source,
            self.leading_position(ast),
        ) {
            Ok(element) => element,
            Err(violation) => {
                return Err(violation);
            },
        };
        let trailing_comments = match format_trailing_comments(comments, source, end, next) {
            Ok(element) => element,
            Err(violation) => {
                proof {
                    let reached = comments@.printed - first;
                    assert forall|i: int| 0 <= i < reached implies spec_comment_fits(
                        source.spec_bytes(),
                        #[trigger] before.comments[first + i],
                    ) by {
                        if i >= leading {
                            assert(before.comments[first + i] == before.comments[(first + leading)
                                + (i - leading)]);
                        }
                    }
                }
                return Err(violation);
            },
        };
        proof {
            assert forall|i: int| 0 <= i < leading + trailing implies spec_comment_fits(
                source.spec_bytes(),
                #[trigger] before.comments[first + i],
            ) by {
                if i >= leading {
                    assert(before.comments[first + i] == before.comments[(first + leading) + (i
                        - leading)]);
                }
            }
        }
        Ok(ChainMemberParts { leading_comments, inner, trailing_comments })
    }
}

impl ChainMember {
    /// The outcome of formatting the link with the comments around it: the
    /// document of the link, put together from the parts that
    /// [`Self::spec_has_parts`] describes, or the first comment that cannot
    /// be printed.
    pub open spec fn spec_is_formatted_with_comments(
        self,
        tree: AstView,
        before: CommentsView,
        after: CommentsView,
        source: Seq<u8>,
        inner: FormatElement,
        outcome: Result<FormatElement, InvariantViolation>,
    ) -> bool {
        match outcome {
            Ok(element) => exists|parts: ChainMemberParts|
                #![trigger self.spec_is_formatted(tree, parts, element)]
                self.spec_has_parts(tree, before, after, source, inner, Ok(parts))
                    && self.spec_is_formatted(tree, parts, element),
            Err(violation) => self.spec_has_parts(
                tree,
                before,
                after,
                source,
                inner,
                Err(violation),
            ),
        }
    }

    /// Formats the link with the comments around it: the comments are
    /// printed first, then the link is put together. Where a comment cannot
    /// be printed, the run ends there and no document is built.
    pub fn format(
        &self,
        ast: &Ast,
        comments: &mut Comments,
        source: &str,
        inner: FormatElement,
    ) -> (outcome: Result<FormatElement, InvariantViolation>)
        requires
            ast@.wf(),
            ast@.fits(source.spec_bytes().len()),
            self.spec_node() < ast@.len(),
            old(comments)@.wf(),
        ensures
            final(comments)@.wf(),
            self.spec_is_formatted_with_comments(
                ast@,
                old(comments)@,
                final(comments)@,
                source.spec_bytes(),
                inner,
                outcome,
            ),
    {
        match self.format_parts(ast, comments, source, inner) {
            Ok(parts) => {
                let ghost built = parts;
                let element = self.fmt(ast, parts);
                assert(self.spec_is_formatted(ast@, built, element));
                Ok(element)
            },
            Err(violation) => Err(violation),
        }
    }
}

/// A chain with at least this many call groups is laid out one group to a
/// line where it does not fit on one line.
pub const CALL_GROUP_THRESHOLD: usize = 3;

/// The call `index` is the last call of its group: what follows it, if
/// anything, is no call, or the call is a long curried call, which the call
/// that follows it is split from.
pub open spec fn spec_ends_call_group(tree: AstView, members: Seq<ChainMember>, index: int) -> bool {
    &&& 1 <= index < members.len()
    &&& members[index].spec_is_call_expression()
    &&& (index + 1 < members.len() ==> !members[index + 1].spec_is_call_expression()
        || spec_is_long_curried_call(tree, members[index].spec_node()))
}

/// The number of call groups among the links from 1 up to `count`: the runs
/// of member accesses that a call, or several, end.
pub open spec fn spec_count_call_groups(tree: AstView, members: Seq<ChainMember>, count: int) -> nat
    decreases count,
{
    if count <= 1 {
        0
    } else if spec_ends_call_group(tree, members, count - 1) {
        1 + spec_count_call_groups(tree, members, count - 1)
    } else {
        spec_count_call_groups(tree, members, count - 1)
    }
}

/// Counts the call groups of a chain. The link that the chain starts with
/// belongs to no group.
pub fn count_call_groups(ast: &Ast, members: &Vec<ChainMember>) -> (count: usize)
    requires
        ast@.wf(),
        forall|k: int| 0 <= k < members@.len() ==> (#[trigger] members@[k]).spec_node() < ast@.len(),
    ensures
        count == spec_count_call_groups(ast@, members@, members@.len() as int),
        count <= members@.len(),
{
    let mut count: usize = 0;
    let mut i: usize = 1;
    while i < members.len()
        invariant
            1 <= i,
            count < i,
            i <= members@.len() || count == 0,
            ast@.wf(),
            forall|k: int|
                0 <= k < members@.len() ==> (#[trigger] members@[k]).spec_node() < ast@.len(),
            count == spec_count_call_groups(ast@, members@, if i <= members@.len() {
                i as int
            } else {
                members@.len() as int
            }),
        decreases members.len() - i,
    {
        let ends_group = members[i].is_call_expression() && (i + 1 >= members.len()
            || !members[i + 1].is_call_expression() || is_long_curried_call(
            ast,
            members[i].node(),
        ));
        if ends_group {
            count += 1;
        }
        i += 1;
    }
    count
}

/// A new group begins with the link `index`: it is the first link after the
/// start of the chain, or it follows the last call of a group.
pub open spec fn spec_starts_group(tree: AstView, members: Seq<ChainMember>, index: int) -> bool {
    &&& 1 <= index < members.len()
    &&& (index == 1 || spec_ends_call_group(tree, members, index - 1))
}

/// Whether a new group begins with the link `index`.
pub fn starts_group(ast: &Ast, members: &Vec<ChainMember>, index: usize) -> (starts: bool)
    requires
        ast@.wf(),
        forall|k: int| 0 <= k < members@.len() ==> (#[trigger] members@[k]).spec_node() < ast@.len(),
    ensures
        starts == spec_starts_group(ast@, members@, index as int),
{
    if index < 1 || index >= members.len() {
        return false;
    }
    if index == 1 {
        return true;
    }
    members[index - 1].is_call_expression() && (!members[index].is_call_expression()
        || is_long_curried_call(ast, members[index - 1].node()))
}

/// One link of a chain with its document.
pub struct FormattedLink {
    pub member: ChainMember,
    pub document: FormatElement,
    /// The link must stay on the line of what stands before it: a trailing
    /// line comment in the source ties it there.
    pub keep_on_line: bool,
}

/// The links of `links`, without their documents.
pub open spec fn spec_members_of(links: Seq<FormattedLink>) -> Seq<ChainMember> {
    Seq::new(links.len(), |i: int| links[i].member)
}

/// In the layout that gives each group its own line, a line may break before
/// the link `index`.
pub open spec fn spec_breaks_before(tree: AstView, links: Seq<FormattedLink>, index: int) -> bool {
    spec_starts_group(tree, spec_members_of(links), index) && !links[index].keep_on_line
}

/// `element` is `document`, with a soft line break before it where `breaks`
/// holds.
pub open spec fn spec_is_linked(element: FormatElement, breaks: bool, document: FormatElement) -> bool {
    if breaks {
        &&& element matches FormatElement::Concat(pair)
        &&& pair@.len() == 2
        &&& pair@[0] == FormatElement::SoftLineBreak
        &&& pair@[1] == document
    } else {
        element == document
    }
}

/// `element` is the layout of the chain `links`. Every chain is one group,
/// so that a chain that fits is printed on one line whatever stands around
/// it.
///
/// With fewer call groups than [`CALL_GROUP_THRESHOLD`] the links simply
/// follow one another: no line ever breaks between two links of such a
/// chain, however narrow the line, and only what the links hold can break.
/// The number of call groups decides whether a chain may break between its
/// links; the width decides only whether one that may does.
///
/// Otherwise the group holds the link that the chain starts with, and
/// indented under it the other links, with a soft line break before every
/// link that begins a group. Such a chain is printed on one line if it
/// fits, and one group to a line if it does not.
pub open spec fn spec_is_chain_layout(
    tree: AstView,
    links: Seq<FormattedLink>,
    element: FormatElement,
) -> bool {
    if spec_count_call_groups(tree, spec_members_of(links), links.len() as int)
        < CALL_GROUP_THRESHOLD {
        &&& element matches FormatElement::Group(content)
        &&& *content matches FormatElement::Concat(items)
        &&& items@.len() == links.len()
        &&& forall|i: int| 0 <= i < links.len() ==> #[trigger] items@[i] == links[i].document
    } else {
        &&& element matches FormatElement::Group(content)
        &&& *content matches FormatElement::Concat(outer)
        &&& outer@.len() == 2
        &&& outer@[0] == links[0].document
        &&& outer@[1] matches FormatElement::Indent(indented)
        &&& *indented matches FormatElement::Concat(inner)
        &&& inner@.len() == links.len() - 1
        &&& forall|i: int|
            1 <= i < links.len() ==> spec_is_linked(
                #[trigger] inner@[i - 1],
                spec_breaks_before(tree, links, i),
                links[i].document,
            )
    }
}

/// The elements of `items` in the opposite order.
fn reversed(items: Vec<FormatElement>) -> (turned: Vec<FormatElement>)
    ensures
        turned@ == items@.reverse(),
{
    let mut rest = items;
    let mut turned: Vec<FormatElement> = Vec::new();
    while rest.len() > 0
        invariant
            rest@.len() <= items@.len(),
            rest@ == items@.subrange(0, rest@.len() as int),
            turned@ == items@.reverse().subrange(0, items@.len() - rest@.len()),
        decreases rest.len(),
    {
        let ghost before = rest@;
        let last = rest.pop().unwrap();
        turned.push(last);
        assert(rest@ =~= items@.subrange(0, rest@.len() as int));
        assert(turned@ =~= items@.reverse().subrange(0, items@.len() - rest@.len()));
    }
    assert(turned@ =~= items@.reverse());
    turned
}

/// Lays out a chain from the documents of its links.
pub fn layout_member_chain(ast: &Ast, links: Vec<FormattedLink>) -> (element: FormatElement)
    requires
        ast@.wf(),
        links@.len() >= 1,
        forall|k: int| 0 <= k < links@.len() ==> (#[trigger] links@[k]).member.spec_node() < ast@.len(),
    ensures
        spec_is_chain_layout(ast@, links@, element),
{
    let mut members: Vec<ChainMember> = Vec::new();
    let mut i: usize = 0;
    while i < links.len()
        invariant
            i <= links.len(),
            members@ == spec_members_of(links@).subrange(0, i as int),
        decreases links.len() - i,
    {
        members.push(links[i].member);
        i += 1;
        assert(members@ =~= spec_members_of(links@).subrange(0, i as int));
    }
    assert(members@ =~= spec_members_of(links@));
    assert forall|k: int| 0 <= k < members@.len() implies (#[trigger] members@[k]).spec_node()
        < ast@.len() by {
        assert(members@[k] == links@[k].member);
    }
    let one_group_per_line = count_call_groups(ast, &members) >= CALL_GROUP_THRESHOLD;
    let mut rest = links;
    let mut turned: Vec<FormatElement> = Vec::new();
    while rest.len() > 1
        invariant
            1 <= rest@.len() <= links@.len(),
            rest@ == links@.subrange(0, rest@.len() as int),
            members@ == spec_members_of(links@),
            ast@.wf(),
            forall|k: int|
                0 <= k < members@.len() ==> (#[trigger] members@[k]).spec_node() < ast@.len(),
            turned@.len() == links@.len() - rest@.len(),
            forall|k: int|
                0 <= k < turned@.len() ==> spec_is_linked(
                    #[trigger] turned@[k],
                    one_group_per_line && spec_breaks_before(ast@, links@, links@.len() - 1 - k),
                    links@[links@.len() - 1 - k].document,
                ),
        decreases rest.len(),
    {
        let index = rest.len() - 1;
        let link = rest.pop().unwrap();
        assert(link == links@[index as int]);
        assert(rest@ =~= links@.subrange(0, rest@.len() as int));
        let breaks = one_group_per_line && starts_group(ast, &members, index)
            && !link.keep_on_line;
        let ghost earlier = turned@;
        if breaks {
            let mut pair: Vec<FormatElement> = Vec::new();
            pair.push(FormatElement::SoftLineBreak);
            pair.push(link.document);
            turned.push(FormatElement::Concat(pair));
        } else {
            turned.push(link.document);
        }
        assert forall|k: int| 0 <= k < turned@.len() implies spec_is_linked(
            #[trigger] turned@[k],
            one_group_per_line && spec_breaks_before(ast@, links@, links@.len() - 1 - k),
            links@[links@.len() - 1 - k].document,
        ) by {
            if k < earlier.len() {
                assert(turned@[k] == earlier[k]);
            }
        }
    }
    let head = rest.pop().unwrap();
    assert(head == links@[0]);
    let inner = reversed(turned);
    if one_group_per_line {
        let mut outer: Vec<FormatElement> = Vec::new();
        outer.push(head.document);
        outer.push(FormatElement::Indent(Box::new(FormatElement::Concat(inner))));
        let element = FormatElement::Group(Box::new(FormatElement::Concat(outer)));
        assert forall|i: int| 1 <= i < links@.len() implies spec_is_linked(
            #[trigger] inner@[i - 1],
            spec_breaks_before(ast@, links@, i),
            links@[i].document,
        ) by {
            assert(inner@[i - 1] == turned@[links@.len() - 1 - i]);
        }
        element
    } else {
        let mut items: Vec<FormatElement> = Vec::new();
        items.push(head.document);
        let mut tail = inner;
        let ghost documents = tail@;
        let mut back = reversed(tail);
        while back.len() > 0
            invariant
                back@.len() <= documents.len(),
                back@ == documents.reverse().subrange(0, back@.len() as int),
                items@ == seq![links@[0].document] + documents.subrange(
                    0,
                    documents.len() - back@.len(),
                ),
            decreases back.len(),
        {
            let next = back.pop().unwrap();
            items.push(next);
            assert(back@ =~= documents.reverse().subrange(0, back@.len() as int));
            assert(items@ =~= seq![links@[0].document] + documents.subrange(
                0,
                documents.len() - back@.len(),
            ));
        }
        assert(items@ =~= seq![links@[0].document] + documents);
        assert forall|i: int| 0 <= i < links@.len() implies #[trigger] items@[i]
            == links@[i].document by {
            if i >= 1 {
                assert(items@[i] == documents[i - 1]);
                assert(documents[i - 1] == turned@[links@.len() - 1 - i]);
            }
        }
        FormatElement::Group(Box::new(FormatElement::Concat(items)))
    }
}

} // verus!
