//! The options that a formatting run reads. They do not change while the run
//! lasts.

use vstd::prelude::*;

verus! {

/// What a level of indentation is made of.
#[derive(Clone, Copy, Debug, PartialEq, Eq, Structural)]
pub enum IndentStyle {
    Tab,
    Space,
}

/// The quote character that string literals are printed with.
#[derive(Clone, Copy, Debug, PartialEq, Eq, Structural)]
pub enum QuoteStyle {
    Double,
    Single,
}

/// Where a trailing comma is printed in a list broken over lines.
#[derive(Clone, Copy, Debug, PartialEq, Eq, Structural)]
pub enum TrailingCommas {
    /// Nowhere.
    Never,
    /// Where ES5 allowed one: in array and object literals.
    Es5,
    /// Wherever the language allows one.
    All,
}

/// The options of one formatting run.
#[derive(Clone, Copy, Debug, PartialEq, Eq, Structural)]
pub struct FormatOptions {
    pub indent_style: IndentStyle,
    /// The number of columns that one level of indentation takes.
    pub indent_width: u8,
    /// The number of columns that a line should not exceed.
    pub line_width: u16,
    pub quote_style: QuoteStyle,
    pub trailing_commas: TrailingCommas,
}

impl Default for FormatOptions {
    /// Two spaces per level, 80 columns, double quotes, trailing commas
    /// wherever they are allowed.
    fn default() -> (options: FormatOptions)
        ensures
            options == (FormatOptions {
                indent_style: IndentStyle::Space,
                indent_width: 2,
                line_width: 80,
                quote_style: QuoteStyle::Double,
                trailing_commas: TrailingCommas::All,
            }),
    {
        FormatOptions {
            indent_style: IndentStyle::Space,
            indent_width: 2,
            line_width: 80,
            quote_style: QuoteStyle::Double,
            trailing_commas: TrailingCommas::All,
        }
    }
}

} // verus!
