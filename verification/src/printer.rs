//! The layout printer: it turns a document into text for a given line width.
//!
//! The printer walks the document once, from the top. At every group it
//! measures the group's content as if printed on one line, together with what
//! follows the group up to the next place where a line may break. If that fits
//! into what is left of the current line, and nothing in the group forces a
//! break, the group is printed on one line; otherwise all soft breaks directly
//! in it become line breaks.

use vstd::prelude::*;
use vstd::string::*;
use crate::document::{add_width, spec_add_width, spec_text_width, text_width, FormatElement};
use crate::options::{FormatOptions, IndentStyle};

verus! {

/// The deepest level of indentation; deeper regions are indented as this one.
pub const MAX_LEVEL: u16 = 0xFFFF;

/// What the printer has done so far.
pub ghost struct PrintState {
    /// The text printed so far.
    pub out: Seq<char>,
    /// The columns that are left on the current line; 0 once the line is
    /// full or overfull.
    pub remaining: nat,
    /// The line suffixes that wait for the end of the current line.
    pub pending: Seq<char>,
}

/// `count` copies of `unit`, one after another.
pub open spec fn spec_repeat(unit: Seq<char>, count: nat) -> Seq<char>
    decreases count,
{
    if count == 0 {
        Seq::empty()
    } else {
        spec_repeat(unit, (count - 1) as nat) + unit
    }
}

/// The text that indents a line to `level`.
pub open spec fn spec_indent_text(level: nat, options: FormatOptions) -> Seq<char> {
    match options.indent_style {
        IndentStyle::Tab => spec_repeat("\t"@, level),
        IndentStyle::Space => spec_repeat(" "@, level * (options.indent_width as nat)),
    }
}

/// The columns that are left on a line after its indentation to `level`.
pub open spec fn spec_line_start(level: nat, options: FormatOptions) -> nat {
    if level * options.indent_width >= options.line_width {
        0
    } else {
        (options.line_width - level * options.indent_width) as nat
    }
}

/// The level one deeper than `level`.
pub open spec fn spec_deeper(level: nat) -> nat {
    if level < MAX_LEVEL {
        level + 1
    } else {
        level
    }
}

/// The state after `text` has been printed on the current line. A text wider
/// than what is left is printed all the same.
pub open spec fn spec_put(state: PrintState, text: Seq<char>) -> PrintState {
    PrintState {
        out: state.out + text,
        remaining: if spec_text_width(text) >= state.remaining {
            0
        } else {
            (state.remaining - spec_text_width(text)) as nat
        },
        pending: state.pending,
    }
}

/// The state after the current line has been ended: the waiting suffixes are
/// printed, then the line break, then the indentation of the new line.
pub open spec fn spec_newline(state: PrintState, level: nat, options: FormatOptions) -> PrintState {
    PrintState {
        out: state.out + state.pending + "\n"@ + spec_indent_text(level, options),
        remaining: spec_line_start(level, options),
        pending: Seq::empty(),
    }
}

/// What an element puts on the current line before the first place where a
/// line may break: the width of that text, and whether there is such a place
/// in the element.
pub open spec fn spec_lead(element: FormatElement) -> (nat, bool)
    decreases element,
{
    match element {
        FormatElement::Text(text) => (spec_text_width(text@), false),
        FormatElement::Concat(items) => spec_lead_of(items@, 0),
        FormatElement::Group(content) => spec_lead(*content),
        FormatElement::Indent(content) => spec_lead(*content),
        FormatElement::SoftLineBreak
        | FormatElement::SoftLineBreakOrSpace
        | FormatElement::HardLineBreak => (0, true),
        FormatElement::LineSuffix(_) => (0, false),
        FormatElement::ConditionalGroup(alternatives) => if alternatives@.len() > 0 {
            spec_lead(alternatives@[0])
        } else {
            (0, false)
        },
    }
}

/// As [`spec_lead`], for the elements of `items` from `from` on.
pub open spec fn spec_lead_of(items: Seq<FormatElement>, from: int) -> (nat, bool)
    decreases items, items.len() - from,
{
    if from < 0 || from >= items.len() {
        (0, false)
    } else {
        let (width, closed) = spec_lead(items[from]);
        if closed {
            (width, true)
        } else {
            let (more, closed_later) = spec_lead_of(items, from + 1);
            (spec_add_width(width, more), closed_later)
        }
    }
}

/// The width of what follows the element `index` of `items` on its line,
/// where `trailing` is the width of what follows all of `items`.
pub open spec fn spec_trailing_after(items: Seq<FormatElement>, index: int, trailing: nat) -> nat {
    let (width, closed) = spec_lead_of(items, index + 1);
    if closed {
        width
    } else {
        spec_add_width(width, trailing)
    }
}

/// An element fits when nothing in it forces a line break and its width on
/// one line, with what follows it on the line, is within what is left.
pub open spec fn spec_fits(element: FormatElement, remaining: nat, trailing: nat) -> bool {
    !element.spec_will_break() && spec_add_width(element.spec_flat_width(), trailing) <= remaining
}

/// The first alternative from `from` on that fits, if any.
pub open spec fn spec_first_fitting(
    alternatives: Seq<FormatElement>,
    from: int,
    remaining: nat,
    trailing: nat,
) -> Option<int>
    decreases alternatives.len() - from,
{
    if from < 0 || from >= alternatives.len() {
        None
    } else if spec_fits(alternatives[from], remaining, trailing) {
        Some(from)
    } else {
        spec_first_fitting(alternatives, from + 1, remaining, trailing)
    }
}

/// The state after `element` has been printed from `state`, at `level`.
/// `flat` says that the enclosing group is printed on one line; `trailing` is
/// the width of what follows the element on its line.
pub open spec fn spec_render(
    element: FormatElement,
    state: PrintState,
    level: nat,
    flat: bool,
    trailing: nat,
    options: FormatOptions,
) -> PrintState
    decreases element,
{
    match element {
        FormatElement::Text(text) => spec_put(state, text@),
        FormatElement::Concat(items) => spec_render_items(
            items@,
            items@.len() as int,
            state,
            level,
            flat,
            trailing,
            options,
        ),
        FormatElement::Group(content) => spec_render(
            *content,
            state,
            level,
            flat || spec_fits(*content, state.remaining, trailing),
            trailing,
            options,
        ),
        FormatElement::Indent(content) => spec_render(
            *content,
            state,
            spec_deeper(level),
            flat,
            trailing,
            options,
        ),
        FormatElement::SoftLineBreak => if flat {
            state
        } else {
            spec_newline(state, level, options)
        },
        FormatElement::SoftLineBreakOrSpace => if flat {
            spec_put(state, " "@)
        } else {
            spec_newline(state, level, options)
        },
        FormatElement::HardLineBreak => spec_newline(state, level, options),
        FormatElement::LineSuffix(text) => PrintState {
            out: state.out,
            remaining: state.remaining,
            pending: state.pending + text@,
        },
        FormatElement::ConditionalGroup(alternatives) => if alternatives@.len() == 0 {
            state
        } else if flat {
            spec_render(alternatives@[0], state, level, true, trailing, options)
        } else {
            match spec_first_fitting(alternatives@, 0, state.remaining, trailing) {
                Some(index) if 0 <= index < alternatives@.len() => spec_render(
                    alternatives@[index],
                    state,
                    level,
                    true,
                    trailing,
                    options,
                ),
                _ => spec_render(
                    alternatives@[alternatives@.len() - 1],
                    state,
                    level,
                    false,
                    trailing,
                    options,
                ),
            }
        },
    }
}

/// The state after the first `count` elements of `items` have been printed.
pub open spec fn spec_render_items(
    items: Seq<FormatElement>,
    count: int,
    state: PrintState,
    level: nat,
    flat: bool,
    trailing: nat,
    options: FormatOptions,
) -> PrintState
    decreases items, count,
{
    if count <= 0 || count > items.len() {
        state
    } else {
        spec_render(
            items[count - 1],
            spec_render_items(items, count - 1, state, level, flat, trailing, options),
            level,
            flat,
            spec_trailing_after(items, count - 1, trailing),
            options,
        )
    }
}

/// The text of a document printed with `options`.
pub open spec fn spec_print(document: FormatElement, options: FormatOptions) -> Seq<char> {
    let end = spec_render(
        document,
        PrintState { out: Seq::empty(), remaining: options.line_width as nat, pending: Seq::empty() },
        0,
        false,
        0,
        options,
    );
    end.out + end.pending
}

/// The printer at work: the text so far, the room left on the current line,
/// and the line suffixes that wait for the line to end.
pub struct Printer {
    out: String,
    remaining: u32,
    pending: String,
    options: FormatOptions,
}

impl View for Printer {
    type V = PrintState;

    closed spec fn view(&self) -> PrintState {
        PrintState { out: self.out@, remaining: self.remaining as nat, pending: self.pending@ }
    }
}

/// What an element puts on the current line before the first place where a
/// line may break.
#[verifier::loop_isolation(false)]
pub fn lead(element: &FormatElement) -> (found: (u32, bool))
    ensures
        found.0 == spec_lead(*element).0,
        found.1 == spec_lead(*element).1,
    decreases element,
{
    match element {
        FormatElement::Text(text) => (text_width(text.as_str()), false),
        FormatElement::Concat(items) => lead_of(items, 0),
        FormatElement::Group(content) => lead(content),
        FormatElement::Indent(content) => lead(content),
        FormatElement::SoftLineBreak
        | FormatElement::SoftLineBreakOrSpace
        | FormatElement::HardLineBreak => (0, true),
        FormatElement::LineSuffix(_) => (0, false),
        FormatElement::ConditionalGroup(alternatives) => {
            if alternatives.len() > 0 {
                assert(decreases_to!(alternatives => alternatives[0]));
                lead(&alternatives[0])
            } else {
                (0, false)
            }
        },
    }
}

/// As [`lead`], for the elements of `items` from `from` on.
#[verifier::loop_isolation(false)]
pub fn lead_of(items: &Vec<FormatElement>, from: usize) -> (found: (u32, bool))
    ensures
        found.0 == spec_lead_of(items@, from as int).0,
        found.1 == spec_lead_of(items@, from as int).1,
    decreases items, items.len() - from,
{
    if from >= items.len() {
        return (0, false);
    }
    assert(decreases_to!(items => items[from as int]));
    let (width, closed) = lead(&items[from]);
    if closed {
        (width, true)
    } else {
        let (more, closed_later) = lead_of(items, from + 1);
        (add_width(width, more), closed_later)
    }
}

/// Whether an element fits into `remaining` columns, followed by `trailing`
/// columns of other text.
pub fn fits(element: &FormatElement, remaining: u32, trailing: u32) -> (fitting: bool)
    ensures
        fitting == spec_fits(*element, remaining as nat, trailing as nat),
{
    !element.will_break() && add_width(element.flat_width(), trailing) <= remaining
}

impl Printer {
    /// A printer that has printed nothing yet.
    pub fn new(options: FormatOptions) -> (printer: Printer)
        ensures
            printer@ == (PrintState {
                out: Seq::empty(),
                remaining: options.line_width as nat,
                pending: Seq::empty(),
            }),
            printer.options() == options,
    {
        Printer {
            out: String::new(),
            remaining: options.line_width as u32,
            pending: String::new(),
            options,
        }
    }

    /// The options that the printer was made with.
    pub closed spec fn options(&self) -> FormatOptions {
        self.options
    }

    /// Prints `text` on the current line.
    fn put(&mut self, text: &str)
        ensures
            final(self)@ == spec_put(old(self)@, text@),
            final(self).options() == old(self).options(),
    {
        self.out.append(text);
        let width = text_width(text);
        if width >= self.remaining {
            self.remaining = 0;
        } else {
            self.remaining = self.remaining - width;
        }
    }

    /// Prints `count` copies of `unit`.
    fn repeat(&mut self, unit: &str, count: u32)
        ensures
            final(self).out@ == old(self).out@ + spec_repeat(unit@, count as nat),
            final(self).remaining == old(self).remaining,
            final(self).pending == old(self).pending,
            final(self).options == old(self).options,
    {
        let mut i: u32 = 0;
        assert(self.out@ =~= old(self).out@ + spec_repeat(unit@, 0));
        while i < count
            invariant
                i <= count,
                self.out@ == old(self).out@ + spec_repeat(unit@, i as nat),
                self.remaining == old(self).remaining,
                self.pending == old(self).pending,
                self.options == old(self).options,
            decreases count - i,
        {
            self.out.append(unit);
            i += 1;
            assert(self.out@ =~= old(self).out@ + spec_repeat(unit@, i as nat));
        }
    }

    /// Ends the current line and indents the next one to `level`.
    fn newline(&mut self, level: u16)
        ensures
            final(self)@ == spec_newline(old(self)@, level as nat, old(self).options()),
            final(self).options() == old(self).options(),
    {
        self.out.append(self.pending.as_str());
        self.pending = String::new();
        self.out.append("\n");
        let width = self.options.indent_width;
        assert(level * width <= 0xFFFF * 0xFF) by (nonlinear_arith)
            requires
                level <= 0xFFFF,
                width <= 0xFF,
        ;
        let columns: u32 = level as u32 * width as u32;
        match self.options.indent_style {
            IndentStyle::Tab => {
                self.repeat("\t", level as u32);
            },
            IndentStyle::Space => {
                self.repeat(" ", columns);
            },
        }
        if columns >= self.options.line_width as u32 {
            self.remaining = 0;
        } else {
            self.remaining = self.options.line_width as u32 - columns;
        }
        assert(self@.out =~= spec_newline(old(self)@, level as nat, old(self).options()).out);
    }

    /// Prints `element` at `level`. `flat` says that the enclosing group is
    /// printed on one line; `trailing` is the width of what follows the
    /// element on its line.
    #[verifier::loop_isolation(false)]
    pub fn render(&mut self, element: &FormatElement, level: u16, flat: bool, trailing: u32)
        ensures
            final(self)@ == spec_render(
                *element,
                old(self)@,
                level as nat,
                flat,
                trailing as nat,
                old(self).options(),
            ),
            final(self).options() == old(self).options(),
        decreases element,
    {
        match element {
            FormatElement::Text(text) => {
                self.put(text.as_str());
            },
            FormatElement::Concat(items) => {
                let mut i: usize = 0;
                while i < items.len()
                    invariant
                        i <= items.len(),
                        self.options() == old(self).options(),
                        self@ == spec_render_items(
                            items@,
                            i as int,
                            old(self)@,
                            level as nat,
                            flat,
                            trailing as nat,
                            old(self).options(),
                        ),
                    decreases items.len() - i,
                {
                    let (width, closed) = lead_of(items, i + 1);
                    let after = if closed {
                        width
                    } else {
                        add_width(width, trailing)
                    };
                    assert(decreases_to!(items => items[i as int]));
                    self.render(&items[i], level, flat, after);
                    i += 1;
                }
            },
            FormatElement::Group(content) => {
                let one_line = flat || fits(content, self.remaining, trailing);
                self.render(content, level, one_line, trailing);
            },
            FormatElement::Indent(content) => {
                let deeper = if level < MAX_LEVEL {
                    level + 1
                } else {
                    level
                };
                self.render(content, deeper, flat, trailing);
            },
            FormatElement::SoftLineBreak => {
                if !flat {
                    self.newline(level);
                }
            },
            FormatElement::SoftLineBreakOrSpace => {
                if flat {
                    self.put(" ");
                } else {
                    self.newline(level);
                }
            },
            FormatElement::HardLineBreak => {
                self.newline(level);
            },
            FormatElement::LineSuffix(text) => {
                self.pending.append(text.as_str());
            },
            FormatElement::ConditionalGroup(alternatives) => {
                if alternatives.len() == 0 {
                    return ;
                }
                if flat {
                    assert(decreases_to!(alternatives => alternatives[0]));
                    self.render(&alternatives[0], level, true, trailing);
                    return ;
                }
                let mut i: usize = 0;
                while i < alternatives.len()
                    invariant
                        i <= alternatives.len(),
                        self == old(self),
                        spec_first_fitting(
                            alternatives@,
                            0,
                            self@.remaining,
                            trailing as nat,
                        ) == spec_first_fitting(
                            alternatives@,
                            i as int,
                            self@.remaining,
                            trailing as nat,
                        ),
                    decreases alternatives.len() - i,
                {
                    if fits(&alternatives[i], self.remaining, trailing) {
                        assert(decreases_to!(alternatives => alternatives[i as int]));
                        self.render(&alternatives[i], level, true, trailing);
                        return ;
                    }
                    i += 1;
                }
                let last = alternatives.len() - 1;
                assert(decreases_to!(alternatives => alternatives[last as int]));
                self.render(&alternatives[last], level, false, trailing);
            },
        }
    }

    /// Ends the run: the suffixes that still wait are printed, and the text
    /// is handed out.
    pub fn finish(self) -> (text: String)
        ensures
            text@ == self@.out + self@.pending,
    {
        let mut out = self.out;
        out.append(self.pending.as_str());
        out
    }
}

/// Prints a document with `options`.
pub fn print(document: &FormatElement, options: FormatOptions) -> (text: String)
    ensures
        text@ == spec_print(*document, options),
{
    let mut printer = Printer::new(options);
    printer.render(document, 0, false, 0);
    printer.finish()
}

} // verus!
