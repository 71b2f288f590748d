//! The document: an abstract description of printable output. Building one
//! has no effect; only the printer gives it a meaning.

use vstd::prelude::*;

verus! {

/// One piece of a document.
#[derive(Debug)]
pub enum FormatElement {
    /// Literal text. It holds no line break.
    Text(String),
    /// The pieces one after another.
    Concat(Vec<FormatElement>),
    /// A region that is printed on one line if it fits, and with all its own
    /// soft breaks turned into line breaks if it does not.
    Group(Box<FormatElement>),
    /// A region whose line breaks are followed by one more level of
    /// indentation.
    Indent(Box<FormatElement>),
    /// Nothing where the enclosing group is printed on one line, a line break
    /// where it is broken.
    SoftLineBreak,
    /// A space where the enclosing group is printed on one line, a line break
    /// where it is broken.
    SoftLineBreakOrSpace,
    /// A line break, which also breaks every group around it.
    HardLineBreak,
    /// Text that is held back until the line ends: a trailing comment.
    LineSuffix(String),
    /// Alternatives of one region, from the most compact to the most
    /// expanded. The first that fits on the line is printed on one line; if
    /// none fits, the last is printed broken.
    ConditionalGroup(Vec<FormatElement>),
}

/// Widths are counted up to this many columns; a wider text counts as this
/// wide. No line width comes near it.
pub const WIDTH_CAP: u32 = 0xFFFF_FFFF;

/// The sum of two widths, capped.
pub open spec fn spec_add_width(a: nat, b: nat) -> nat {
    if a + b > WIDTH_CAP {
        WIDTH_CAP as nat
    } else {
        a + b
    }
}

/// The sum of two widths, capped.
pub fn add_width(a: u32, b: u32) -> (sum: u32)
    ensures
        sum == spec_add_width(a as nat, b as nat),
{
    let total: u64 = a as u64 + b as u64;
    if total > WIDTH_CAP as u64 {
        WIDTH_CAP
    } else {
        total as u32
    }
}

/// The width of a text: its number of characters, capped.
pub open spec fn spec_text_width(text: Seq<char>) -> nat {
    if text.len() > WIDTH_CAP {
        WIDTH_CAP as nat
    } else {
        text.len()
    }
}

/// The width of a text.
pub fn text_width(text: &str) -> (width: u32)
    ensures
        width == spec_text_width(text@),
{
    let length = text.unicode_len();
    if length > WIDTH_CAP as usize {
        WIDTH_CAP
    } else {
        length as u32
    }
}

impl FormatElement {
    /// The element forces a line break: it holds a hard line break outside
    /// any line suffix. For alternatives, the most compact one decides.
    pub open spec fn spec_will_break(self) -> bool
        decreases self,
    {
        match self {
            FormatElement::HardLineBreak => true,
            FormatElement::Concat(items) => exists|k: int|
                0 <= k < items@.len() && (#[trigger] items@[k]).spec_will_break(),
            FormatElement::Group(content) => content.spec_will_break(),
            FormatElement::Indent(content) => content.spec_will_break(),
            FormatElement::ConditionalGroup(alternatives) => alternatives@.len() > 0
                && alternatives@[0].spec_will_break(),
            _ => false,
        }
    }

    /// The width of the element printed on one line, capped.
    pub open spec fn spec_flat_width(self) -> nat
        decreases self,
    {
        match self {
            FormatElement::Text(text) => spec_text_width(text@),
            FormatElement::Concat(items) => Self::spec_flat_width_of(items@, items@.len() as int),
            FormatElement::Group(content) => content.spec_flat_width(),
            FormatElement::Indent(content) => content.spec_flat_width(),
            FormatElement::SoftLineBreakOrSpace => 1,
            FormatElement::ConditionalGroup(alternatives) => if alternatives@.len() > 0 {
                alternatives@[0].spec_flat_width()
            } else {
                0
            },
            _ => 0,
        }
    }

    /// The width of the first `count` elements printed on one line, capped.
    pub open spec fn spec_flat_width_of(items: Seq<FormatElement>, count: int) -> nat
        decreases items, count,
    {
        if count <= 0 || count > items.len() {
            0
        } else {
            spec_add_width(
                Self::spec_flat_width_of(items, count - 1),
                items[count - 1].spec_flat_width(),
            )
        }
    }
}

impl FormatElement {
    /// Whether the element forces a line break.
    #[verifier::loop_isolation(false)]
    pub fn will_break(&self) -> (forced: bool)
        ensures
            forced == self.spec_will_break(),
        decreases self,
    {
        match self {
            FormatElement::HardLineBreak => true,
            FormatElement::Concat(items) => {
                let mut i: usize = 0;
                while i < items.len()
                    invariant
                        i <= items.len(),
                        forall|k: int| 0 <= k < i ==> !(#[trigger] items@[k]).spec_will_break(),
                    decreases items.len() - i,
                {
                    assert(decreases_to!(items => items[i as int]));
                    if items[i].will_break() {
                        assert(items@[i as int].spec_will_break());
                        return true;
                    }
                    i += 1;
                }
                false
            },
            FormatElement::Group(content) => content.will_break(),
            FormatElement::Indent(content) => content.will_break(),
            FormatElement::ConditionalGroup(alternatives) => {
                if alternatives.len() > 0 {
                    assert(decreases_to!(alternatives => alternatives[0]));
                    alternatives[0].will_break()
                } else {
                    false
                }
            },
            _ => false,
        }
    }

    /// The width of the element printed on one line, capped.
    #[verifier::loop_isolation(false)]
    pub fn flat_width(&self) -> (width: u32)
        ensures
            width == self.spec_flat_width(),
        decreases self,
    {
        match self {
            FormatElement::Text(text) => text_width(text.as_str()),
            FormatElement::Concat(items) => {
                let mut width: u32 = 0;
                let mut i: usize = 0;
                while i < items.len()
                    invariant
                        i <= items.len(),
                        width == Self::spec_flat_width_of(items@, i as int),
                    decreases items.len() - i,
                {
                    assert(decreases_to!(items => items[i as int]));
                    width = add_width(width, items[i].flat_width());
                    i += 1;
                }
                width
            },
            FormatElement::Group(content) => content.flat_width(),
            FormatElement::Indent(content) => content.flat_width(),
            FormatElement::SoftLineBreakOrSpace => 1,
            FormatElement::ConditionalGroup(alternatives) => {
                if alternatives.len() > 0 {
                    assert(decreases_to!(alternatives => alternatives[0]));
                    alternatives[0].flat_width()
                } else {
                    0
                }
            },
            _ => 0,
        }
    }
}

/// The element is the text `content`.
pub open spec fn spec_is_text(element: FormatElement, content: Seq<char>) -> bool {
    element matches FormatElement::Text(held) && held@ == content
}

/// The text `content`.
pub fn text(content: &str) -> (element: FormatElement)
    ensures
        element matches FormatElement::Text(held) && held@ == content@,
{
    FormatElement::Text(content.to_owned())
}

/// A single space.
pub fn space() -> (element: FormatElement)
    ensures
        element matches FormatElement::Text(held) && held@ == " "@,
{
    text(" ")
}

/// The pieces of `items` one after another.
pub fn sequence(items: Vec<FormatElement>) -> (element: FormatElement)
    ensures
        element == FormatElement::Concat(items),
{
    FormatElement::Concat(items)
}

/// `content` as a group.
pub fn group(content: FormatElement) -> (element: FormatElement)
    ensures
        element == FormatElement::Group(Box::new(content)),
{
    FormatElement::Group(Box::new(content))
}

/// `content` one level deeper.
pub fn indent(content: FormatElement) -> (element: FormatElement)
    ensures
        element == FormatElement::Indent(Box::new(content)),
{
    FormatElement::Indent(Box::new(content))
}

/// A line break that is printed in any case.
pub fn hard_line_break() -> (element: FormatElement)
    ensures
        element == FormatElement::HardLineBreak,
{
    FormatElement::HardLineBreak
}

/// A line break where the enclosing group is broken, nothing otherwise.
pub fn soft_line_break() -> (element: FormatElement)
    ensures
        element == FormatElement::SoftLineBreak,
{
    FormatElement::SoftLineBreak
}

/// A line break where the enclosing group is broken, a space otherwise.
pub fn soft_line_break_or_space() -> (element: FormatElement)
    ensures
        element == FormatElement::SoftLineBreakOrSpace,
{
    FormatElement::SoftLineBreakOrSpace
}

} // verus!
