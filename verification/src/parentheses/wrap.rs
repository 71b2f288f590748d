//! Putting the parentheses that a node needs around its document.

use vstd::prelude::*;
use crate::ast::{Ast, AstView, NodeId};
use crate::document::{text, FormatElement};
use crate::document::spec_is_text;
use crate::parentheses::expression::{needs_parentheses, spec_needs_parentheses};
use crate::options::FormatOptions;
use crate::printer::{
    spec_lead,
    spec_lead_of,
    spec_print,
    spec_put,
    spec_render,
    spec_render_items,
    spec_trailing_after,
    PrintState,
};
use crate::printer_laws::{spec_flat_text, spec_flat_text_of};

verus! {

/// `element` is `content` between `(` and `)`.
pub open spec fn spec_is_wrapped(element: FormatElement, content: FormatElement) -> bool {
    &&& element matches FormatElement::Concat(items)
    &&& items@.len() == 3
    &&& spec_is_text(items@[0], "("@)
    &&& items@[1] == content
    &&& spec_is_text(items@[2], ")"@)
}

/// `element` is the document of the node `id` with the content `content`:
/// `content` itself, in parentheses where the node needs them.
pub open spec fn spec_is_document_of(
    tree: AstView,
    id: NodeId,
    source: Seq<u8>,
    content: FormatElement,
    element: FormatElement,
) -> bool {
    if spec_needs_parentheses(tree, id, source) {
        spec_is_wrapped(element, content)
    } else {
        element == content
    }
}

/// The document of the node `id`: `content`, in parentheses where the node
/// needs them.
pub fn format_with_parentheses(ast: &Ast, id: NodeId, source: &[u8], content: FormatElement) -> (element:
    FormatElement)
    requires
        ast@.wf(),
        ast@.fits(source@.len()),
        id < ast@.len(),
    ensures
        spec_is_document_of(ast@, id, source@, content, element),
{
    if needs_parentheses(ast, id, source) {
        let mut items: Vec<FormatElement> = Vec::new();
        items.push(text("("));
        items.push(content);
        items.push(text(")"));
        FormatElement::Concat(items)
    } else {
        content
    }
}

/// On one line, a wrapped document reads as its content between
/// parentheses.
pub proof fn lemma_wrapped_flat_text(element: FormatElement, content: FormatElement)
    requires
        spec_is_wrapped(element, content),
    ensures
        spec_flat_text(element) == "("@ + spec_flat_text(content) + ")"@,
{
    let items = element->Concat_0@;
    assert(spec_flat_text(items[0]) == "("@);
    assert(spec_flat_text(items[2]) == ")"@);
    assert(spec_flat_text_of(items, 0) =~= Seq::<char>::empty());
    assert(spec_flat_text_of(items, 1) =~= "("@);
    assert(spec_flat_text_of(items, 2) =~= "("@ + spec_flat_text(content));
    assert(spec_flat_text_of(items, 3) =~= "("@ + spec_flat_text(content) + ")"@);
}

/// Two documents that wrap the same content are printed as the same text.
pub proof fn lemma_wrapped_alike(
    element: FormatElement,
    other: FormatElement,
    content: FormatElement,
    options: FormatOptions,
)
    requires
        spec_is_wrapped(element, content),
        spec_is_wrapped(other, content),
    ensures
        spec_print(element, options) == spec_print(other, options),
{
    let start = PrintState {
        out: Seq::empty(),
        remaining: options.line_width as nat,
        pending: Seq::empty(),
    };
    let one = element->Concat_0@;
    let two = other->Concat_0@;
    assert(spec_lead(one[2]) == spec_lead(two[2]));
    assert(spec_lead_of(one, 3) == spec_lead_of(two, 3));
    assert(spec_lead_of(one, 2) == spec_lead_of(two, 2));
    assert(spec_lead_of(one, 1) == spec_lead_of(two, 1));
    assert(spec_render_items(one, 0, start, 0, false, 0, options) == spec_render_items(
        two,
        0,
        start,
        0,
        false,
        0,
        options,
    ));
    let first = spec_trailing_after(one, 0, 0);
    assert(first == spec_trailing_after(two, 0, 0));
    assert(spec_render(one[0], start, 0, false, first, options) == spec_put(start, "("@));
    assert(spec_render(two[0], start, 0, false, first, options) == spec_put(start, "("@));
    assert(spec_render_items(one, 1, start, 0, false, 0, options) == spec_render_items(
        two,
        1,
        start,
        0,
        false,
        0,
        options,
    ));
    assert(spec_render_items(one, 2, start, 0, false, 0, options) == spec_render_items(
        two,
        2,
        start,
        0,
        false,
        0,
        options,
    ));
    let before = spec_render_items(one, 2, start, 0, false, 0, options);
    let last = spec_trailing_after(one, 2, 0);
    assert(last == spec_trailing_after(two, 2, 0));
    assert(spec_render(one[2], before, 0, false, last, options) == spec_put(before, ")"@));
    assert(spec_render(two[2], before, 0, false, last, options) == spec_put(before, ")"@));
    assert(spec_render_items(one, 3, start, 0, false, 0, options) == spec_render_items(
        two,
        3,
        start,
        0,
        false,
        0,
        options,
    ));
}

} // verus!
