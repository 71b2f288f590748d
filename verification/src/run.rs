//! The end of a formatting run: the document becomes text, or the run ends
//! without any.

use vstd::prelude::*;
use crate::comments::Comments;
use crate::document::FormatElement;
use crate::error::InvariantViolation;
use crate::options::FormatOptions;
use crate::printer::{print, spec_print};

verus! {

/// Prints the document of a whole run. A run whose comments have not all
/// been printed gives no text: the first comment that was left out is
/// reported instead.
pub fn finish(document: &FormatElement, comments: &Comments, options: FormatOptions) -> (output:
    Result<String, InvariantViolation>)
    requires
        comments@.wf(),
    ensures
        match output {
            Ok(text) => comments@.all_printed_once() && text@ == spec_print(*document, options),
            Err(violation) => !comments@.all_printed_once() && violation
                == (InvariantViolation::CommentNotPrinted {
                span: comments@.comments[comments@.printed as int].span,
            }),
        },
{
    match comments.finish() {
        Ok(_) => Ok(print(document, options)),
        Err(violation) => Err(violation),
    }
}

} // verus!
