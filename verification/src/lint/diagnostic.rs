//! What a rule reports: a message for the reader, and where possible a
//! change to the text that mends what was found.

use vstd::prelude::*;
use crate::span::Span;

verus! {

/// A warning about a place in the source text.
#[derive(Clone, Debug, PartialEq, Eq)]
pub struct Diagnostic {
    /// What is wrong.
    pub message: String,
    /// What to do about it.
    pub help: String,
    /// The place that the warning points at.
    pub label: Span,
}

/// A change to the source text: the text of `span` is replaced by `content`.
#[derive(Clone, Debug, PartialEq, Eq)]
pub struct Fix {
    pub span: Span,
    pub content: String,
}

/// A diagnostic, with a fix where the rule knows a safe one.
#[derive(Clone, Debug, PartialEq, Eq)]
pub struct Report {
    pub diagnostic: Diagnostic,
    pub fix: Option<Fix>,
}

} // verus!
