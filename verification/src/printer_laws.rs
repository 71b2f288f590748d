//! What holds of the printer on every document.

use vstd::prelude::*;
use crate::document::FormatElement;
use crate::options::FormatOptions;
use crate::document::WIDTH_CAP;
use crate::printer::{
    spec_deeper,
    spec_first_fitting,
    spec_fits,
    spec_lead,
    spec_lead_of,
    spec_print,
    spec_put,
    spec_render,
    spec_render_items,
    spec_trailing_after,
    PrintState,
};

verus! {

/// The text of an element printed on one line: its texts one after another,
/// with a space for every soft line break that stands for one. Of
/// alternatives the most compact one is taken. Line suffixes are left out:
/// they are printed at the end of the line.
pub open spec fn spec_flat_text(element: FormatElement) -> Seq<char>
    decreases element,
{
    match element {
        FormatElement::Text(text) => text@,
        FormatElement::Concat(items) => spec_flat_text_of(items@, items@.len() as int),
        FormatElement::Group(content) => spec_flat_text(*content),
        FormatElement::Indent(content) => spec_flat_text(*content),
        FormatElement::SoftLineBreakOrSpace => " "@,
        FormatElement::ConditionalGroup(alternatives) => if alternatives@.len() > 0 {
            spec_flat_text(alternatives@[0])
        } else {
            Seq::empty()
        },
        _ => Seq::empty(),
    }
}

/// The text of the first `count` elements printed on one line.
pub open spec fn spec_flat_text_of(items: Seq<FormatElement>, count: int) -> Seq<char>
    decreases items, count,
{
    if count <= 0 || count > items.len() {
        Seq::empty()
    } else {
        spec_flat_text_of(items, count - 1) + spec_flat_text(items[count - 1])
    }
}

/// The line suffixes of an element, one after another.
pub open spec fn spec_suffix_text(element: FormatElement) -> Seq<char>
    decreases element,
{
    match element {
        FormatElement::LineSuffix(text) => text@,
        FormatElement::Concat(items) => spec_suffix_text_of(items@, items@.len() as int),
        FormatElement::Group(content) => spec_suffix_text(*content),
        FormatElement::Indent(content) => spec_suffix_text(*content),
        FormatElement::ConditionalGroup(alternatives) => if alternatives@.len() > 0 {
            spec_suffix_text(alternatives@[0])
        } else {
            Seq::empty()
        },
        _ => Seq::empty(),
    }
}

/// The line suffixes of the first `count` elements.
pub open spec fn spec_suffix_text_of(items: Seq<FormatElement>, count: int) -> Seq<char>
    decreases items, count,
{
    if count <= 0 || count > items.len() {
        Seq::empty()
    } else {
        spec_suffix_text_of(items, count - 1) + spec_suffix_text(items[count - 1])
    }
}

/// An element that forces no line break, printed inside a group that is on
/// one line, adds its flat text to the line and its line suffixes to those
/// that wait, and nothing else: no line is broken.
pub proof fn lemma_flat_render(
    element: FormatElement,
    state: PrintState,
    level: nat,
    trailing: nat,
    options: FormatOptions,
)
    requires
        !element.spec_will_break(),
    ensures
        spec_render(element, state, level, true, trailing, options).out == state.out
            + spec_flat_text(element),
        spec_render(element, state, level, true, trailing, options).pending == state.pending
            + spec_suffix_text(element),
    decreases element,
{
    let end = spec_render(element, state, level, true, trailing, options);
    match element {
        FormatElement::Concat(items) => {
            lemma_flat_render_items(
                items@,
                items@.len() as int,
                state,
                level,
                trailing,
                options,
            );
        },
        FormatElement::Group(content) => {
            lemma_flat_render(*content, state, level, trailing, options);
        },
        FormatElement::Indent(content) => {
            lemma_flat_render(
                *content,
                state,
                spec_deeper(level),
                trailing,
                options,
            );
        },
        FormatElement::ConditionalGroup(alternatives) => {
            if alternatives@.len() > 0 {
                lemma_flat_render(alternatives@[0], state, level, trailing, options);
            } else {
                assert(end.out =~= state.out + spec_flat_text(element));
                assert(end.pending =~= state.pending + spec_suffix_text(element));
            }
        },
        _ => {
            assert(end.out =~= state.out + spec_flat_text(element));
            assert(end.pending =~= state.pending + spec_suffix_text(element));
        },
    }
}

/// As [`lemma_flat_render`], for the first `count` elements of `items`.
pub proof fn lemma_flat_render_items(
    items: Seq<FormatElement>,
    count: int,
    state: PrintState,
    level: nat,
    trailing: nat,
    options: FormatOptions,
)
    requires
        0 <= count <= items.len(),
        forall|k: int| 0 <= k < items.len() ==> !(#[trigger] items[k]).spec_will_break(),
    ensures
        spec_render_items(items, count, state, level, true, trailing, options).out == state.out
            + spec_flat_text_of(items, count),
        spec_render_items(items, count, state, level, true, trailing, options).pending
            == state.pending + spec_suffix_text_of(items, count),
    decreases items, count,
{
    let end = spec_render_items(items, count, state, level, true, trailing, options);
    if count > 0 {
        lemma_flat_render_items(items, count - 1, state, level, trailing, options);
        let before = spec_render_items(items, count - 1, state, level, true, trailing, options);
        lemma_flat_render(
            items[count - 1],
            before,
            level,
            spec_trailing_after(items, count - 1, trailing),
            options,
        );
        assert(end.out =~= state.out + spec_flat_text_of(items, count));
        assert(end.pending =~= state.pending + spec_suffix_text_of(items, count));
    } else {
        assert(end.out =~= state.out + spec_flat_text_of(items, count));
        assert(end.pending =~= state.pending + spec_suffix_text_of(items, count));
    }
}

/// The element holds text only: no place where a line may break, no line
/// break, no line suffix and no alternatives.
pub open spec fn spec_is_plain(element: FormatElement) -> bool
    decreases element,
{
    match element {
        FormatElement::Text(_) => true,
        FormatElement::Concat(items) => forall|k: int|
            0 <= k < items@.len() ==> spec_is_plain(#[trigger] items@[k]),
        FormatElement::Group(content) => spec_is_plain(*content),
        FormatElement::Indent(content) => spec_is_plain(*content),
        _ => false,
    }
}

/// An element that holds text only is printed as that text wherever it
/// stands, whether or not the group around it is broken and however little
/// room is left: what cannot be broken overflows.
pub proof fn lemma_plain_render(
    element: FormatElement,
    state: PrintState,
    level: nat,
    flat: bool,
    trailing: nat,
    options: FormatOptions,
)
    requires
        spec_is_plain(element),
    ensures
        spec_render(element, state, level, flat, trailing, options).out == state.out
            + spec_flat_text(element),
        spec_render(element, state, level, flat, trailing, options).pending == state.pending,
    decreases element,
{
    let end = spec_render(element, state, level, flat, trailing, options);
    match element {
        FormatElement::Concat(items) => {
            lemma_plain_render_items(
                items@,
                items@.len() as int,
                state,
                level,
                flat,
                trailing,
                options,
            );
        },
        FormatElement::Group(content) => {
            lemma_plain_render(
                *content,
                state,
                level,
                flat || spec_fits(*content, state.remaining, trailing),
                trailing,
                options,
            );
        },
        FormatElement::Indent(content) => {
            lemma_plain_render(*content, state, spec_deeper(level), flat, trailing, options);
        },
        _ => {
            assert(end.out =~= state.out + spec_flat_text(element));
        },
    }
}

/// As [`lemma_plain_render`], for the first `count` elements of `items`.
pub proof fn lemma_plain_render_items(
    items: Seq<FormatElement>,
    count: int,
    state: PrintState,
    level: nat,
    flat: bool,
    trailing: nat,
    options: FormatOptions,
)
    requires
        0 <= count <= items.len(),
        forall|k: int| 0 <= k < items.len() ==> spec_is_plain(#[trigger] items[k]),
    ensures
        spec_render_items(items, count, state, level, flat, trailing, options).out == state.out
            + spec_flat_text_of(items, count),
        spec_render_items(items, count, state, level, flat, trailing, options).pending
            == state.pending,
    decreases items, count,
{
    let end = spec_render_items(items, count, state, level, flat, trailing, options);
    if count > 0 {
        lemma_plain_render_items(items, count - 1, state, level, flat, trailing, options);
        let before = spec_render_items(items, count - 1, state, level, flat, trailing, options);
        lemma_plain_render(
            items[count - 1],
            before,
            level,
            flat,
            spec_trailing_after(items, count - 1, trailing),
            options,
        );
        assert(end.out =~= state.out + spec_flat_text_of(items, count));
    } else {
        assert(end.out =~= state.out + spec_flat_text_of(items, count));
    }
}

/// An element that holds text only holds no line suffix.
pub proof fn lemma_plain_has_no_suffix(element: FormatElement)
    requires
        spec_is_plain(element),
    ensures
        spec_suffix_text(element) == Seq::<char>::empty(),
    decreases element,
{
    match element {
        FormatElement::Concat(items) => {
            lemma_plain_have_no_suffix(items@, items@.len() as int);
        },
        FormatElement::Group(content) => {
            lemma_plain_has_no_suffix(*content);
        },
        FormatElement::Indent(content) => {
            lemma_plain_has_no_suffix(*content);
        },
        _ => {},
    }
}

/// As [`lemma_plain_has_no_suffix`], for the first `count` elements of
/// `items`.
pub proof fn lemma_plain_have_no_suffix(items: Seq<FormatElement>, count: int)
    requires
        0 <= count <= items.len(),
        forall|k: int| 0 <= k < items.len() ==> spec_is_plain(#[trigger] items[k]),
    ensures
        spec_suffix_text_of(items, count) == Seq::<char>::empty(),
    decreases items, count,
{
    if count > 0 {
        lemma_plain_have_no_suffix(items, count - 1);
        lemma_plain_has_no_suffix(items[count - 1]);
        assert(spec_suffix_text_of(items, count) =~= Seq::<char>::empty());
    }
}

/// The width that an element puts on the line before the first place where
/// a line may break is a capped width.
pub proof fn lemma_lead_is_capped(element: FormatElement)
    ensures
        spec_lead(element).0 <= WIDTH_CAP,
    decreases element,
{
    match element {
        FormatElement::Concat(items) => {
            lemma_lead_is_capped_of(items@, 0);
        },
        FormatElement::Group(content) => {
            lemma_lead_is_capped(*content);
        },
        FormatElement::Indent(content) => {
            lemma_lead_is_capped(*content);
        },
        FormatElement::ConditionalGroup(alternatives) => {
            if alternatives@.len() > 0 {
                lemma_lead_is_capped(alternatives@[0]);
            }
        },
        _ => {},
    }
}

/// As [`lemma_lead_is_capped`], for the elements of `items` from `from` on;
/// so the width of what follows an element on its line is a capped width
/// where the width of what follows all of `items` is.
pub proof fn lemma_lead_is_capped_of(items: Seq<FormatElement>, from: int)
    ensures
        spec_lead_of(items, from).0 <= WIDTH_CAP,
        spec_trailing_after(items, from - 1, 0) <= WIDTH_CAP,
    decreases items, items.len() - from,
{
    if 0 <= from < items.len() {
        lemma_lead_is_capped(items[from]);
        lemma_lead_is_capped_of(items, from + 1);
    }
}

/// A group that fits into the line width is printed on one line: as its
/// flat text, followed by its line suffixes.
pub proof fn lemma_group_that_fits_is_printed_on_one_line(
    content: FormatElement,
    options: FormatOptions,
)
    requires
        spec_fits(content, options.line_width as nat, 0),
    ensures
        spec_print(FormatElement::Group(Box::new(content)), options) == spec_flat_text(content)
            + spec_suffix_text(content),
{
    let start = PrintState {
        out: Seq::empty(),
        remaining: options.line_width as nat,
        pending: Seq::empty(),
    };
    lemma_flat_render(content, start, 0, 0, options);
    let end = spec_render(content, start, 0, true, 0, options);
    assert(end.out =~= spec_flat_text(content));
    assert(end.pending =~= spec_suffix_text(content));
}

/// A text is printed as it is, however narrow the line: what cannot be
/// broken overflows.
pub proof fn lemma_text_is_printed_as_it_is(content: String, options: FormatOptions)
    ensures
        spec_print(FormatElement::Text(content), options) == content@,
{
    let start = PrintState {
        out: Seq::empty(),
        remaining: options.line_width as nat,
        pending: Seq::empty(),
    };
    assert(spec_put(start, content@).out =~= content@);
    assert(spec_print(FormatElement::Text(content), options) =~= content@);
}

/// An element that forces a line break fits nowhere, so no group around it
/// is printed on one line.
pub proof fn lemma_forced_break_never_fits(element: FormatElement, remaining: nat, trailing: nat)
    requires
        element.spec_will_break(),
    ensures
        !spec_fits(element, remaining, trailing),
{
}

/// What fits into a line fits into every wider line, and with less behind
/// it.
pub proof fn lemma_fits_is_monotone(
    element: FormatElement,
    remaining: nat,
    wider: nat,
    trailing: nat,
    less: nat,
)
    requires
        spec_fits(element, remaining, trailing),
        remaining <= wider,
        less <= trailing,
    ensures
        spec_fits(element, wider, less),
{
}

/// Printing does not depend on the options that the printer does not read:
/// the quote style and the trailing commas.
pub proof fn lemma_print_reads_layout_options_only(
    document: FormatElement,
    options: FormatOptions,
    other: FormatOptions,
)
    requires
        options.indent_style == other.indent_style,
        options.indent_width == other.indent_width,
        options.line_width == other.line_width,
    ensures
        spec_print(document, options) == spec_print(document, other),
{
    let start = PrintState {
        out: Seq::empty(),
        remaining: options.line_width as nat,
        pending: Seq::empty(),
    };
    lemma_render_reads_layout_options_only(document, start, 0, false, 0, options, other);
}

/// As [`lemma_print_reads_layout_options_only`], from any state.
pub proof fn lemma_render_reads_layout_options_only(
    element: FormatElement,
    state: PrintState,
    level: nat,
    flat: bool,
    trailing: nat,
    options: FormatOptions,
    other: FormatOptions,
)
    requires
        options.indent_style == other.indent_style,
        options.indent_width == other.indent_width,
        options.line_width == other.line_width,
    ensures
        spec_render(element, state, level, flat, trailing, options) == spec_render(
            element,
            state,
            level,
            flat,
            trailing,
            other,
        ),
    decreases element,
{
    match element {
        FormatElement::Concat(items) => {
            lemma_render_items_reads_layout_options_only(
                items@,
                items@.len() as int,
                state,
                level,
                flat,
                trailing,
                options,
                other,
            );
        },
        FormatElement::Group(content) => {
            lemma_render_reads_layout_options_only(
                *content,
                state,
                level,
                flat || spec_fits(*content, state.remaining, trailing),
                trailing,
                options,
                other,
            );
        },
        FormatElement::Indent(content) => {
            lemma_render_reads_layout_options_only(
                *content,
                state,
                spec_deeper(level),
                flat,
                trailing,
                options,
                other,
            );
        },
        FormatElement::ConditionalGroup(alternatives) => {
            if alternatives@.len() > 0 {
                if flat {
                    lemma_render_reads_layout_options_only(
                        alternatives@[0],
                        state,
                        level,
                        true,
                        trailing,
                        options,
                        other,
                    );
                } else {
                    match spec_first_fitting(
                        alternatives@,
                        0,
                        state.remaining,
                        trailing,
                    ) {
                        Some(index) if 0 <= index < alternatives@.len() => {
                            lemma_render_reads_layout_options_only(
                                alternatives@[index],
                                state,
                                level,
                                true,
                                trailing,
                                options,
                                other,
                            );
                        },
                        _ => {
                            lemma_render_reads_layout_options_only(
                                alternatives@[alternatives@.len() - 1],
                                state,
                                level,
                                false,
                                trailing,
                                options,
                                other,
                            );
                        },
                    }
                }
            }
        },
        _ => {},
    }
}

/// As [`lemma_render_reads_layout_options_only`], for the first `count`
/// elements of `items`.
proof fn lemma_render_items_reads_layout_options_only(
    items: Seq<FormatElement>,
    count: int,
    state: PrintState,
    level: nat,
    flat: bool,
    trailing: nat,
    options: FormatOptions,
    other: FormatOptions,
)
    requires
        options.indent_style == other.indent_style,
        options.indent_width == other.indent_width,
        options.line_width == other.line_width,
    ensures
        spec_render_items(items, count, state, level, flat, trailing, options)
            == spec_render_items(items, count, state, level, flat, trailing, other),
    decreases items, count,
{
    if 0 < count <= items.len() {
        lemma_render_items_reads_layout_options_only(
            items,
            count - 1,
            state,
            level,
            flat,
            trailing,
            options,
            other,
        );
        lemma_render_reads_layout_options_only(
            items[count - 1],
            spec_render_items(items, count - 1, state, level, flat, trailing, options),
            level,
            flat,
            spec_trailing_after(items, count - 1, trailing),
            options,
            other,
        );
    }
}

} // verus!
