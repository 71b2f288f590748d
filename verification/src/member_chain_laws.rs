//! What holds of the layout of every member chain.

use vstd::prelude::*;
use crate::ast::AstView;
use crate::comments::CommentsView;
use crate::document::{spec_is_text, FormatElement};
use crate::member_chain::{
    spec_is_optional,
    ChainMember,
    ChainMemberParts,
    spec_breaks_before,
    spec_count_call_groups,
    spec_is_chain_layout,
    spec_is_linked,
    spec_members_of,
    FormattedLink,
    CALL_GROUP_THRESHOLD,
};
use crate::options::FormatOptions;
use crate::document::{spec_add_width, WIDTH_CAP};
use crate::error::InvariantViolation;
use crate::trivia::{
    spec_all_fit,
    spec_comment_fits,
    spec_is_leading_document,
    spec_is_trailing_document,
};
use crate::printer::{
    spec_fits,
    spec_indent_text,
    spec_lead,
    spec_lead_of,
    spec_newline,
    spec_print,
    spec_render,
    spec_render_items,
    spec_trailing_after,
    PrintState,
};
use crate::printer_laws::{
    lemma_group_that_fits_is_printed_on_one_line,
    lemma_lead_is_capped_of,
    lemma_plain_has_no_suffix,
    lemma_plain_render,
    spec_flat_text,
    spec_flat_text_of,
    spec_is_plain,
    spec_suffix_text,
    spec_suffix_text_of,
};

verus! {

/// The texts of the first `count` links, one after another, each as it is
/// printed on one line.
pub open spec fn spec_links_flat_text(links: Seq<FormattedLink>, count: int) -> Seq<char>
    decreases count,
{
    if count <= 0 || count > links.len() {
        Seq::empty()
    } else {
        spec_links_flat_text(links, count - 1) + spec_flat_text(links[count - 1].document)
    }
}

/// A link reads the same on one line whether or not a line may break before
/// it.
proof fn lemma_linked_flat_text(element: FormatElement, breaks: bool, document: FormatElement)
    requires
        spec_is_linked(element, breaks, document),
    ensures
        spec_flat_text(element) == spec_flat_text(document),
{
    if breaks {
        let pair = element->Concat_0@;
        assert(spec_flat_text(pair[0]) =~= Seq::<char>::empty());
        assert(spec_flat_text_of(pair, 0) =~= Seq::<char>::empty());
        assert(spec_flat_text_of(pair, 1) =~= Seq::<char>::empty());
        assert(spec_flat_text_of(pair, 2) =~= spec_flat_text(document));
    }
}

/// On one line a chain reads as its links one after another, however it is
/// laid out.
pub proof fn lemma_chain_flat_text(tree: AstView, links: Seq<FormattedLink>, element: FormatElement)
    requires
        links.len() >= 1,
        spec_is_chain_layout(tree, links, element),
    ensures
        spec_flat_text(element) == spec_links_flat_text(links, links.len() as int),
{
    if spec_count_call_groups(tree, spec_members_of(links), links.len() as int)
        < CALL_GROUP_THRESHOLD {
        let content = *element->Group_0;
        let items = content->Concat_0@;
        lemma_items_flat_text(links, items, links.len() as int);
        assert(spec_flat_text(element) == spec_flat_text(content));
    } else {
        let content = *element->Group_0;
        let outer = content->Concat_0@;
        let indented = *outer[1]->Indent_0;
        let inner = indented->Concat_0@;
        lemma_inner_flat_text(tree, links, inner, links.len() as int);
        assert(spec_links_flat_text(links, 0) =~= Seq::<char>::empty());
        assert(spec_links_flat_text(links, 1) =~= spec_flat_text(links[0].document));
        assert(spec_flat_text_of(outer, 0) =~= Seq::<char>::empty());
        assert(spec_flat_text_of(outer, 1) =~= spec_flat_text(links[0].document));
        assert(spec_flat_text(indented) == spec_flat_text_of(inner, inner.len() as int));
        assert(spec_flat_text(outer[1]) == spec_flat_text(indented));
        assert(spec_flat_text_of(outer, 2) =~= spec_flat_text(links[0].document)
            + spec_flat_text_of(inner, inner.len() as int));
        assert(spec_flat_text(content) == spec_flat_text_of(outer, 2));
        assert(spec_flat_text(element) == spec_flat_text(content));
    }
}

/// Links that simply follow one another read, on one line, as the links one
/// after another.
proof fn lemma_items_flat_text(links: Seq<FormattedLink>, items: Seq<FormatElement>, count: int)
    requires
        0 <= count <= links.len(),
        items.len() == links.len(),
        forall|i: int| 0 <= i < links.len() ==> #[trigger] items[i] == links[i].document,
    ensures
        spec_flat_text_of(items, count) == spec_links_flat_text(links, count),
    decreases count,
{
    if count > 0 {
        lemma_items_flat_text(links, items, count - 1);
        assert(items[count - 1] == links[count - 1].document);
    }
}

/// The links under the start of a chain read, on one line, as the links one
/// after another, with or without the soft breaks between them.
proof fn lemma_inner_flat_text(
    tree: AstView,
    links: Seq<FormattedLink>,
    inner: Seq<FormatElement>,
    count: int,
)
    requires
        1 <= count <= links.len(),
        inner.len() == links.len() - 1,
        forall|i: int|
            1 <= i < links.len() ==> spec_is_linked(
                #[trigger] inner[i - 1],
                spec_breaks_before(tree, links, i),
                links[i].document,
            ),
    ensures
        spec_links_flat_text(links, count) == spec_flat_text(links[0].document)
            + spec_flat_text_of(inner, count - 1),
    decreases count,
{
    if count > 1 {
        lemma_inner_flat_text(tree, links, inner, count - 1);
        let element = inner[count - 2];
        assert(spec_is_linked(
            inner[(count - 1) - 1],
            spec_breaks_before(tree, links, count - 1),
            links[count - 1].document,
        ));
        lemma_linked_flat_text(
            element,
            spec_breaks_before(tree, links, count - 1),
            links[count - 1].document,
        );
        assert(spec_links_flat_text(links, count) =~= spec_flat_text(links[0].document)
            + spec_flat_text_of(inner, count - 1));
    } else {
        assert(spec_links_flat_text(links, 0) =~= Seq::<char>::empty());
        assert(spec_links_flat_text(links, 1) =~= spec_flat_text(links[0].document)
            + spec_flat_text_of(inner, 0));
    }
}

/// A chain that fits into the line width is printed on one line, whatever
/// the number of its call groups and whatever its links hold: as its links
/// one after another, followed by its line suffixes. A chain in which
/// something forces a line break fits nowhere.
pub proof fn lemma_chain_that_fits_is_printed_on_one_line(
    tree: AstView,
    links: Seq<FormattedLink>,
    element: FormatElement,
    options: FormatOptions,
)
    requires
        links.len() >= 1,
        spec_is_chain_layout(tree, links, element),
        spec_fits(element, options.line_width as nat, 0),
    ensures
        spec_print(element, options) == spec_links_flat_text(links, links.len() as int)
            + spec_suffix_text(element),
{
    let content = *element->Group_0;
    lemma_chain_flat_text(tree, links, element);
    assert(spec_fits(content, options.line_width as nat, 0));
    lemma_group_that_fits_is_printed_on_one_line(content, options);
    assert(spec_flat_text(element) == spec_flat_text(content));
    assert(spec_suffix_text(element) == spec_suffix_text(content));
}

/// Where a chain is broken, a link before which a line may break begins a
/// line of its own: the line before it is ended, and the link is printed at
/// the start of the next line, at the level of indentation of the chain's
/// links.
pub proof fn lemma_group_begins_its_own_line(
    element: FormatElement,
    document: FormatElement,
    state: PrintState,
    level: nat,
    trailing: nat,
    options: FormatOptions,
)
    requires
        spec_is_linked(element, true, document),
        trailing <= WIDTH_CAP,
    ensures
        spec_render(element, state, level, false, trailing, options) == spec_render(
            document,
            spec_newline(state, level, options),
            level,
            false,
            trailing,
            options,
        ),
{
    let pair = element->Concat_0@;
    assert(spec_lead_of(pair, 2) == (0nat, false));
    assert(spec_trailing_after(pair, 1, trailing) == trailing);
    let first = spec_render_items(pair, 1, state, level, false, trailing, options);
    assert(spec_render_items(pair, 0, state, level, false, trailing, options) == state);
    let before = spec_trailing_after(pair, 0, trailing);
    assert(pair[0] == FormatElement::SoftLineBreak);
    assert(spec_render(pair[0], state, level, false, before, options) == spec_newline(
        state,
        level,
        options,
    ));
    assert(first == spec_render(
        pair[0],
        spec_render_items(pair, 0, state, level, false, trailing, options),
        level,
        false,
        before,
        options,
    ));
    assert(first == spec_newline(state, level, options));
    assert(spec_render_items(pair, 2, state, level, false, trailing, options) == spec_render(
        pair[1],
        first,
        level,
        false,
        spec_trailing_after(pair, 1, trailing),
        options,
    ));
}

/// The texts of the first `count` links of a broken chain: the links one
/// after another, and before every link that begins a group a line break
/// and the indentation of one level.
pub open spec fn spec_links_broken_text(
    tree: AstView,
    links: Seq<FormattedLink>,
    count: int,
    options: FormatOptions,
) -> Seq<char>
    decreases count,
{
    if count <= 0 || count > links.len() {
        Seq::empty()
    } else if count > 1 && spec_breaks_before(tree, links, count - 1) {
        spec_links_broken_text(tree, links, count - 1, options) + "\n"@ + spec_indent_text(
            1,
            options,
        ) + spec_flat_text(links[count - 1].document)
    } else {
        spec_links_broken_text(tree, links, count - 1, options) + spec_flat_text(
            links[count - 1].document,
        )
    }
}

/// What the links of a broken chain from `from` on put on the line before
/// the first place where a line may break: the width of that text, and
/// whether there is such a place. A line may break before every link that
/// begins a group.
pub open spec fn spec_links_lead(tree: AstView, links: Seq<FormattedLink>, from: int) -> (
    nat,
    bool,
)
    decreases links.len() - from,
{
    if from < 1 || from >= links.len() {
        (0, false)
    } else if spec_breaks_before(tree, links, from) {
        (0, true)
    } else {
        let (width, closed) = spec_lead(links[from].document);
        if closed {
            (width, true)
        } else {
            let (more, closed_later) = spec_links_lead(tree, links, from + 1);
            (spec_add_width(width, more), closed_later)
        }
    }
}

/// The width of what follows the link `index` of a broken chain on its
/// line.
pub open spec fn spec_link_trailing(tree: AstView, links: Seq<FormattedLink>, index: int) -> nat {
    let (width, closed) = spec_links_lead(tree, links, index + 1);
    if closed {
        width
    } else {
        spec_add_width(width, 0)
    }
}

/// The printer's state after the first `count` links of a broken chain.
///
/// The link that the chain starts with is printed first, where the chain
/// begins. Every other link is printed one level deeper; before a link that
/// begins a group the line is ended and a new line is begun at that level,
/// and a link that begins no group goes on where the link before it ended.
pub open spec fn spec_broken_chain_state(
    tree: AstView,
    links: Seq<FormattedLink>,
    count: int,
    options: FormatOptions,
) -> PrintState
    decreases count,
{
    if count <= 0 || count > links.len() {
        PrintState {
            out: Seq::empty(),
            remaining: options.line_width as nat,
            pending: Seq::empty(),
        }
    } else if count == 1 {
        spec_render(
            links[0].document,
            spec_broken_chain_state(tree, links, 0, options),
            0,
            false,
            spec_link_trailing(tree, links, 0),
            options,
        )
    } else {
        let before = spec_broken_chain_state(tree, links, count - 1, options);
        spec_render(
            links[count - 1].document,
            if spec_breaks_before(tree, links, count - 1) {
                spec_newline(before, 1, options)
            } else {
                before
            },
            1,
            false,
            spec_link_trailing(tree, links, count - 1),
            options,
        )
    }
}

/// In the layout of a chain the links under its start close the line where
/// [`spec_links_lead`] says.
proof fn lemma_inner_lead(
    tree: AstView,
    links: Seq<FormattedLink>,
    inner: Seq<FormatElement>,
    from: int,
)
    requires
        1 <= from <= links.len(),
        inner.len() == links.len() - 1,
        forall|i: int|
            1 <= i < links.len() ==> spec_is_linked(
                #[trigger] inner[i - 1],
                spec_breaks_before(tree, links, i),
                links[i].document,
            ),
    ensures
        spec_lead_of(inner, from - 1) == spec_links_lead(tree, links, from),
    decreases links.len() - from,
{
    if from < links.len() {
        lemma_inner_lead(tree, links, inner, from + 1);
        assert(spec_is_linked(
            inner[from - 1],
            spec_breaks_before(tree, links, from),
            links[from].document,
        ));
        if spec_breaks_before(tree, links, from) {
            let pair = inner[from - 1]->Concat_0@;
            assert(spec_lead(pair[0]) == (0nat, true));
            assert(spec_lead_of(pair, 0) == (0nat, true));
            assert(spec_lead(inner[from - 1]) == (0nat, true));
        }
    }
}

/// The links under the start of a broken chain are printed as
/// [`spec_broken_chain_state`] says.
proof fn lemma_broken_inner_render(
    tree: AstView,
    links: Seq<FormattedLink>,
    inner: Seq<FormatElement>,
    count: int,
    after_head: PrintState,
    options: FormatOptions,
)
    requires
        1 <= count <= links.len(),
        inner.len() == links.len() - 1,
        forall|i: int|
            1 <= i < links.len() ==> spec_is_linked(
                #[trigger] inner[i - 1],
                spec_breaks_before(tree, links, i),
                links[i].document,
            ),
        after_head == spec_broken_chain_state(tree, links, 1, options),
    ensures
        spec_render_items(inner, count - 1, after_head, 1, false, 0, options)
            == spec_broken_chain_state(tree, links, count, options),
    decreases count,
{
    if count > 1 {
        lemma_broken_inner_render(tree, links, inner, count - 1, after_head, options);
        let index = count - 1;
        let before = spec_render_items(inner, count - 2, after_head, 1, false, 0, options);
        let behind = spec_trailing_after(inner, count - 2, 0);
        lemma_inner_lead(tree, links, inner, index + 1);
        assert(behind == spec_link_trailing(tree, links, index));
        lemma_lead_is_capped_of(inner, index);
        assert(spec_is_linked(
            inner[index - 1],
            spec_breaks_before(tree, links, index),
            links[index].document,
        ));
        if spec_breaks_before(tree, links, index) {
            lemma_group_begins_its_own_line(
                inner[index - 1],
                links[index].document,
                before,
                1,
                behind,
                options,
            );
        }
    }
}

/// A chain with enough call groups to be broken, which does not fit into
/// the line width, is printed one group to a line, whatever its links hold:
/// the link that the chain starts with where the chain begins, and every
/// link that begins a group on a new line, one level deeper. What is
/// printed is what [`spec_broken_chain_state`] holds after the last link.
pub proof fn lemma_chain_that_does_not_fit_is_printed_one_group_to_a_line(
    tree: AstView,
    links: Seq<FormattedLink>,
    element: FormatElement,
    options: FormatOptions,
)
    requires
        links.len() >= 1,
        spec_is_chain_layout(tree, links, element),
        spec_count_call_groups(tree, spec_members_of(links), links.len() as int)
            >= CALL_GROUP_THRESHOLD,
        !spec_fits(element, options.line_width as nat, 0),
    ensures
        spec_print(element, options) == spec_broken_chain_state(
            tree,
            links,
            links.len() as int,
            options,
        ).out + spec_broken_chain_state(tree, links, links.len() as int, options).pending,
{
    let start = PrintState {
        out: Seq::empty(),
        remaining: options.line_width as nat,
        pending: Seq::empty(),
    };
    let content = *element->Group_0;
    let outer = content->Concat_0@;
    let indented = *outer[1]->Indent_0;
    let inner = indented->Concat_0@;
    assert(!spec_fits(content, start.remaining, 0));
    assert(spec_render(element, start, 0, false, 0, options) == spec_render(
        content,
        start,
        0,
        false || spec_fits(content, start.remaining, 0),
        0,
        options,
    ));
    // the link that the chain starts with
    lemma_inner_lead(tree, links, inner, 1);
    assert(spec_lead(indented) == spec_lead_of(inner, 0));
    assert(spec_lead(outer[1]) == spec_lead(indented));
    assert(spec_lead_of(outer, 2) == (0nat, false));
    lemma_lead_is_capped_of(inner, 0);
    assert(spec_trailing_after(outer, 0, 0) == spec_link_trailing(tree, links, 0));
    assert(spec_render_items(outer, 0, start, 0, false, 0, options) == start);
    let after_head = spec_render_items(outer, 1, start, 0, false, 0, options);
    assert(spec_broken_chain_state(tree, links, 0, options) == start);
    assert(after_head == spec_broken_chain_state(tree, links, 1, options));
    // the links under it
    assert(spec_trailing_after(outer, 1, 0) == 0);
    lemma_broken_inner_render(tree, links, inner, links.len() as int, after_head, options);
    let end = spec_render_items(outer, 2, start, 0, false, 0, options);
    assert(end == spec_render(outer[1], after_head, 0, false, 0, options));
    assert(end == spec_render(indented, after_head, 1, false, 0, options));
    assert(end == spec_render_items(inner, inner.len() as int, after_head, 1, false, 0, options));
    assert(spec_render(content, start, 0, false, 0, options) == end);
}

/// A broken chain whose links hold text only reads as
/// [`spec_links_broken_text`] says, and nothing waits for the end of a line.
pub proof fn lemma_broken_chain_of_plain_links(
    tree: AstView,
    links: Seq<FormattedLink>,
    count: int,
    options: FormatOptions,
)
    requires
        0 <= count <= links.len(),
        forall|i: int| 0 <= i < links.len() ==> spec_is_plain(#[trigger] links[i].document),
    ensures
        spec_broken_chain_state(tree, links, count, options).out == spec_links_broken_text(
            tree,
            links,
            count,
            options,
        ),
        spec_broken_chain_state(tree, links, count, options).pending == Seq::<char>::empty(),
    decreases count,
{
    if count > 0 {
        lemma_broken_chain_of_plain_links(tree, links, count - 1, options);
        let before = spec_broken_chain_state(tree, links, count - 1, options);
        let index = count - 1;
        let behind = spec_link_trailing(tree, links, index);
        assert(spec_is_plain(links[index].document));
        if count == 1 {
            lemma_plain_render(links[0].document, before, 0, false, behind, options);
            assert(spec_links_broken_text(tree, links, 0, options) =~= Seq::<char>::empty());
            assert(spec_broken_chain_state(tree, links, 1, options).out =~= spec_links_broken_text(
                tree,
                links,
                1,
                options,
            ));
        } else if spec_breaks_before(tree, links, index) {
            let at = spec_newline(before, 1, options);
            lemma_plain_render(links[index].document, at, 1, false, behind, options);
            assert(at.out =~= before.out + "\n"@ + spec_indent_text(1, options));
        } else {
            lemma_plain_render(links[index].document, before, 1, false, behind, options);
        }
    }
}

/// How a chain is broken. Of a chain whose links hold text only:
///
/// - with fewer call groups than [`CALL_GROUP_THRESHOLD`], and with any
///   number of them where it fits into the line width, the chain is printed
///   on one line, as its links one after another;
/// - with at least that many call groups, where it does not fit, it is
///   printed one group to a line: the link that the chain starts with, and
///   every link that begins a group on a line of its own, indented one level
///   deeper than the start of the chain.
pub proof fn lemma_chain_is_broken_by_groups(
    tree: AstView,
    links: Seq<FormattedLink>,
    element: FormatElement,
    options: FormatOptions,
)
    requires
        links.len() >= 1,
        spec_is_chain_layout(tree, links, element),
        forall|i: int| 0 <= i < links.len() ==> spec_is_plain(#[trigger] links[i].document),
    ensures
        spec_print(element, options) == if spec_count_call_groups(
            tree,
            spec_members_of(links),
            links.len() as int,
        ) < CALL_GROUP_THRESHOLD || spec_fits(element, options.line_width as nat, 0) {
            spec_links_flat_text(links, links.len() as int)
        } else {
            spec_links_broken_text(tree, links, links.len() as int, options)
        },
{
    let start = PrintState {
        out: Seq::empty(),
        remaining: options.line_width as nat,
        pending: Seq::empty(),
    };
    if spec_count_call_groups(tree, spec_members_of(links), links.len() as int)
        < CALL_GROUP_THRESHOLD {
        let content = *element->Group_0;
        let items = content->Concat_0@;
        assert forall|k: int| 0 <= k < items.len() implies spec_is_plain(#[trigger] items[k]) by {
            assert(items[k] == links[k].document);
        }
        assert(spec_is_plain(content));
        lemma_plain_render(element, start, 0, false, 0, options);
        lemma_chain_flat_text(tree, links, element);
        assert(spec_print(element, options) =~= spec_flat_text(element));
    } else if spec_fits(element, options.line_width as nat, 0) {
        let content = *element->Group_0;
        let outer = content->Concat_0@;
        let indented = *outer[1]->Indent_0;
        let inner = indented->Concat_0@;
        lemma_chain_that_fits_is_printed_on_one_line(tree, links, element, options);
        lemma_no_suffix_under_plain_links(tree, links, inner, inner.len() as int);
        assert(spec_suffix_text(links[0].document) =~= Seq::<char>::empty()) by {
            lemma_plain_has_no_suffix(links[0].document);
        }
        assert(spec_suffix_text_of(outer, 0) =~= Seq::<char>::empty());
        assert(spec_suffix_text_of(outer, 1) =~= Seq::<char>::empty());
        assert(spec_suffix_text(indented) == spec_suffix_text_of(inner, inner.len() as int));
        assert(spec_suffix_text(outer[1]) == spec_suffix_text(indented));
        assert(spec_suffix_text_of(outer, 2) =~= Seq::<char>::empty());
        assert(spec_suffix_text(content) == spec_suffix_text_of(outer, 2));
        assert(spec_suffix_text(element) == spec_suffix_text(content));
        assert(spec_print(element, options) =~= spec_links_flat_text(links, links.len() as int));
    } else {
        lemma_chain_that_does_not_fit_is_printed_one_group_to_a_line(tree, links, element, options);
        lemma_broken_chain_of_plain_links(tree, links, links.len() as int, options);
        let end = spec_broken_chain_state(tree, links, links.len() as int, options);
        assert(end.out + end.pending =~= end.out);
    }
}

/// The links under the start of a chain hold no line suffix where every
/// link holds text only.
proof fn lemma_no_suffix_under_plain_links(
    tree: AstView,
    links: Seq<FormattedLink>,
    inner: Seq<FormatElement>,
    count: int,
)
    requires
        0 <= count <= inner.len(),
        inner.len() == links.len() - 1,
        forall|i: int|
            1 <= i < links.len() ==> spec_is_linked(
                #[trigger] inner[i - 1],
                spec_breaks_before(tree, links, i),
                links[i].document,
            ),
        forall|i: int| 0 <= i < links.len() ==> spec_is_plain(#[trigger] links[i].document),
    ensures
        spec_suffix_text_of(inner, count) == Seq::<char>::empty(),
    decreases count,
{
    if count > 0 {
        lemma_no_suffix_under_plain_links(tree, links, inner, count - 1);
        assert(spec_is_linked(
            inner[count - 1],
            spec_breaks_before(tree, links, count),
            links[count].document,
        ));
        assert(spec_is_plain(links[count].document));
        lemma_plain_has_no_suffix(links[count].document);
        if spec_breaks_before(tree, links, count) {
            let pair = inner[count - 1]->Concat_0@;
            assert(spec_suffix_text_of(pair, 0) =~= Seq::<char>::empty());
            assert(spec_suffix_text(pair[0]) =~= Seq::<char>::empty());
            assert(spec_suffix_text_of(pair, 1) =~= Seq::<char>::empty());
            assert(pair[1] == links[count].document);
            assert(spec_suffix_text_of(pair, 2) =~= Seq::<char>::empty());
            assert(spec_suffix_text(inner[count - 1]) == spec_suffix_text_of(pair, 2));
        }
        assert(spec_suffix_text(inner[count - 1]) =~= Seq::<char>::empty());
        assert(spec_suffix_text_of(inner, count) =~= Seq::<char>::empty());
    }
}

/// The comments of a static member stay with it. Where the link has been
/// formatted with its comments, its document holds, in this order: the
/// comments that lead the link, in their order; `.` or `?.`; the property;
/// the comments that trail the link, in their order. Each of these comments
/// has then been printed once, and the marks of all other comments are as
/// they were.
pub proof fn lemma_static_member_keeps_its_comments(
    member: ChainMember,
    tree: AstView,
    before: CommentsView,
    after: CommentsView,
    source: Seq<u8>,
    inner: FormatElement,
    element: FormatElement,
    index: int,
)
    requires
        before.wf(),
        member is StaticMember,
        member.spec_is_formatted_with_comments(tree, before, after, source, inner, Ok(element)),
    ensures
        element matches FormatElement::Concat(items) && items@.len() == 4
            && spec_is_leading_document(
            items@[0],
            source,
            before.comments,
            before.printed as int,
            member.spec_leading_count(tree, before),
        ) && spec_is_text(
            items@[1],
            if spec_is_optional(tree, member.spec_node()) {
                "?."@
            } else {
                "."@
            },
        ) && items@[2] == inner && spec_is_trailing_document(
            items@[3],
            source,
            before.comments,
            before.printed + member.spec_leading_count(tree, before),
            member.spec_trailing_count(tree, before, source),
        ),
        after.emissions(index) == if before.printed <= index < before.printed
            + member.spec_leading_count(tree, before) + member.spec_trailing_count(
            tree,
            before,
            source,
        ) {
            1
        } else {
            before.emissions(index)
        },
{
    let parts = choose|parts: ChainMemberParts|
        #![trigger member.spec_is_formatted(tree, parts, element)]
        member.spec_has_parts(tree, before, after, source, inner, Ok(parts))
            && member.spec_is_formatted(tree, parts, element);
    assert(member.spec_is_formatted(tree, parts, element));
}

/// A link whose comments cannot all be printed gives no document: the run
/// ends with the first comment that cannot be cut out of the text, and
/// neither that comment nor any after it is marked as printed.
pub proof fn lemma_link_fails_at_its_first_bad_comment(
    member: ChainMember,
    tree: AstView,
    before: CommentsView,
    after: CommentsView,
    source: Seq<u8>,
    inner: FormatElement,
    outcome: Result<FormatElement, InvariantViolation>,
    index: int,
)
    requires
        before.wf(),
        member.spec_is_formatted_with_comments(tree, before, after, source, inner, outcome),
    ensures
        outcome is Ok <==> spec_all_fit(
            source,
            before.comments,
            before.printed as int,
            member.spec_leading_count(tree, before) + member.spec_trailing_count(
                tree,
                before,
                source,
            ),
        ),
        outcome matches Err(violation) ==> {
            &&& violation == (InvariantViolation::SpanContainment {
                span: before.comments[after.printed as int].span,
            })
            &&& !spec_comment_fits(source, before.comments[after.printed as int])
            &&& spec_all_fit(
                source,
                before.comments,
                before.printed as int,
                after.printed - before.printed,
            )
            &&& after.emissions(index) == if 0 <= index < after.printed {
                1nat
            } else {
                0nat
            }
        },
{
    match outcome {
        Ok(element) => {
            let parts = choose|parts: ChainMemberParts|
                #![trigger member.spec_is_formatted(tree, parts, element)]
                member.spec_has_parts(tree, before, after, source, inner, Ok(parts))
                    && member.spec_is_formatted(tree, parts, element);
            assert(member.spec_has_parts(tree, before, after, source, inner, Ok(parts)));
        },
        Err(violation) => {
            let due = member.spec_leading_count(tree, before) + member.spec_trailing_count(
                tree,
                before,
                source,
            );
            let bad = after.printed - before.printed;
            if spec_all_fit(source, before.comments, before.printed as int, due) {
                assert(spec_comment_fits(source, before.comments[(before.printed as int) + bad]));
            }
        },
    }
}

} // verus!
