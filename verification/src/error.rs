//! The failures that end a formatting run.

use vstd::prelude::*;
use crate::span::Span;

verus! {

/// An invariant of the run's data does not hold. This shows a fault in the
/// caller or in the formatter, not in the text that is formatted; the run
/// ends without output. Each violation carries the span at which it was
/// found.
#[derive(Clone, Copy, Debug, PartialEq, Eq, Structural)]
pub enum InvariantViolation {
    /// A node names a child that the arena does not hold.
    UnknownChild { span: Span },
    /// A node names a child that already has a parent.
    ChildHasParent { span: Span },
    /// A child's span reaches outside its parent's.
    SpanContainment { span: Span },
    /// A comment begins before the comment listed ahead of it.
    CommentsOutOfOrder { span: Span },
    /// A comment was to be printed although every comment had been printed
    /// already. The span is that of the last comment, or empty where there
    /// is none.
    CommentPrintedTwice { span: Span },
    /// The run ended before this comment was printed.
    CommentNotPrinted { span: Span },
}

} // verus!
