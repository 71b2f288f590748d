//! Printing comments: the documents of the comments that lead and trail a
//! node. A comment is marked as printed when its document is built.

use vstd::prelude::*;
use vstd::string::*;
use crate::comments::{
    spec_run_before,
    spec_run_between,
    Comment,
    CommentKind,
    Comments,
    CommentsView,
};
use crate::document::{space, spec_is_text, FormatElement};
use crate::error::InvariantViolation;
use crate::text::{join, slice, spec_is_sliceable, spec_slice};

verus! {

/// The comment can be cut out of the text: its span lies in the text and
/// splits no character.
pub open spec fn spec_comment_fits(source: Seq<u8>, comment: Comment) -> bool {
    spec_is_sliceable(source, comment.span.start as int, comment.span.end as int)
}

/// The text of a comment, delimiters included.
pub open spec fn spec_comment_text(source: Seq<u8>, comment: Comment) -> Seq<char> {
    spec_slice(source, comment.span.start as int, comment.span.end as int)
}

/// What follows a leading comment: a line break after a line comment, a
/// space after a block comment.
pub open spec fn spec_is_after_leading(element: FormatElement, kind: CommentKind) -> bool {
    match kind {
        CommentKind::Line => element == FormatElement::HardLineBreak,
        CommentKind::Block => spec_is_text(element, " "@),
    }
}

/// `element` is the document of the `count` comments from `from` on as
/// leading comments: each comment as it stands in the text, followed by a
/// line break or a space.
pub open spec fn spec_is_leading_document(
    element: FormatElement,
    source: Seq<u8>,
    comments: Seq<Comment>,
    from: int,
    count: int,
) -> bool {
    &&& element matches FormatElement::Concat(items)
    &&& items@.len() == 2 * count
    &&& forall|i: int|
        0 <= i < count ==> spec_is_text(
            #[trigger] items@[2 * i],
            spec_comment_text(source, comments[from + i]),
        )
    &&& forall|i: int|
        0 <= i < count ==> spec_is_after_leading(
            #[trigger] items@[2 * i + 1],
            comments[from + i].kind,
        )
}

/// `element` is the document of one trailing comment: a space and the
/// comment, held back to the end of the line where it is a line comment.
pub open spec fn spec_is_trailing_comment(
    element: FormatElement,
    source: Seq<u8>,
    comment: Comment,
) -> bool {
    match comment.kind {
        CommentKind::Line => element matches FormatElement::LineSuffix(held) && held@ == " "@
            + spec_comment_text(source, comment),
        CommentKind::Block => spec_is_text(element, " "@ + spec_comment_text(source, comment)),
    }
}

/// `element` is the document of the `count` comments from `from` on as
/// trailing comments.
pub open spec fn spec_is_trailing_document(
    element: FormatElement,
    source: Seq<u8>,
    comments: Seq<Comment>,
    from: int,
    count: int,
) -> bool {
    &&& element matches FormatElement::Concat(items)
    &&& items@.len() == count
    &&& forall|i: int|
        0 <= i < count ==> spec_is_trailing_comment(#[trigger] items@[i], source, comments[from + i])
}

/// The first `count` comments from `from` on can all be cut out of the text.
pub open spec fn spec_all_fit(source: Seq<u8>, comments: Seq<Comment>, from: int, count: int) -> bool {
    forall|i: int| 0 <= i < count ==> spec_comment_fits(source, #[trigger] comments[from + i])
}

/// The outcome of printing the `due` comments from the first unprinted one
/// on, where `made` says that `element` is their document.
///
/// Where every comment can be cut out of the text, the document is built
/// and the comments are marked as printed. Otherwise the comments before the
/// first that cannot are marked, and that one is reported.
pub open spec fn spec_is_printed(
    before: CommentsView,
    after: CommentsView,
    source: Seq<u8>,
    due: int,
    outcome: Result<FormatElement, InvariantViolation>,
    made: spec_fn(FormatElement) -> bool,
) -> bool {
    &&& after.comments == before.comments
    &&& match outcome {
        Ok(element) => {
            &&& spec_all_fit(source, before.comments, before.printed as int, due)
            &&& after.printed == before.printed + due
            &&& made(element)
        },
        Err(violation) => {
            &&& before.printed <= after.printed < before.printed + due
            &&& spec_all_fit(
                source,
                before.comments,
                before.printed as int,
                after.printed - before.printed,
            )
            &&& !spec_comment_fits(source, before.comments[after.printed as int])
            &&& violation == (InvariantViolation::SpanContainment {
                span: before.comments[after.printed as int].span,
            })
        },
    }
}

/// Builds the document of the comments that are due before `position`, and
/// marks them as printed.
pub fn format_leading_comments(comments: &mut Comments, source: &str, position: u32) -> (outcome:
    Result<FormatElement, InvariantViolation>)
    requires
        old(comments)@.wf(),
    ensures
        final(comments)@.wf(),
        spec_is_printed(
            old(comments)@,
            final(comments)@,
            source.spec_bytes(),
            spec_run_before(old(comments)@.comments, old(comments)@.printed as int, position) as int,
            outcome,
            |element: FormatElement|
                spec_is_leading_document(
                    element,
                    source.spec_bytes(),
                    old(comments)@.comments,
                    old(comments)@.printed as int,
                    spec_run_before(
                        old(comments)@.comments,
                        old(comments)@.printed as int,
                        position,
                    ) as int,
                ),
        ),
{
    let due = comments.comments_before(position);
    let first = comments.printed_count();
    let total = comments.len();
    let ghost before = comments@;
    let mut items: Vec<FormatElement> = Vec::new();
    let mut i: usize = 0;
    while i < due
        invariant
            i <= due,
            first + due <= total == before.comments.len(),
            before == old(comments)@,
            due == spec_run_before(before.comments, before.printed as int, position),
            first == before.printed,
            comments@.wf(),
            comments@.comments == before.comments,
            comments@.printed == first + i,
            items@.len() == 2 * i,
            spec_all_fit(source.spec_bytes(), before.comments, first as int, i as int),
            forall|k: int|
                0 <= k < i ==> spec_is_text(
                    #[trigger] items@[2 * k],
                    spec_comment_text(source.spec_bytes(), before.comments[first + k]),
                ),
            forall|k: int|
                0 <= k < i ==> spec_is_after_leading(
                    #[trigger] items@[2 * k + 1],
                    before.comments[first + k].kind,
                ),
        decreases due - i,
    {
        let comment = comments.get(first + i);
        let text = match slice(source, comment.span.start as usize, comment.span.end as usize) {
            Some(text) => text,
            None => {
                return Err(InvariantViolation::SpanContainment { span: comment.span });
            },
        };
        let ghost earlier = items@;
        items.push(FormatElement::Text(text.to_owned()));
        match comment.kind {
            CommentKind::Line => {
                items.push(FormatElement::HardLineBreak);
            },
            CommentKind::Block => {
                items.push(space());
            },
        }
        let counted = comments.increment_printed_count();
        assert(counted is Ok);
        assert forall|k: int| 0 <= k < i + 1 implies spec_is_text(
            #[trigger] items@[2 * k],
            spec_comment_text(source.spec_bytes(), before.comments[first + k]),
        ) by {
            if k < i {
                assert(items@[2 * k] == earlier[2 * k]);
            }
        }
        assert forall|k: int| 0 <= k < i + 1 implies spec_is_after_leading(
            #[trigger] items@[2 * k + 1],
            before.comments[first + k].kind,
        ) by {
            if k < i {
                assert(items@[2 * k + 1] == earlier[2 * k + 1]);
            }
        }
        i += 1;
    }
    Ok(FormatElement::Concat(items))
}

/// Builds the document of the comments that trail a node: those between the
/// node's end `end` and the start `next` of the token that follows. The
/// comments are marked as printed.
pub fn format_trailing_comments(comments: &mut Comments, source: &str, end: u32, next: u32) -> (outcome:
    Result<FormatElement, InvariantViolation>)
    requires
        old(comments)@.wf(),
    ensures
        final(comments)@.wf(),
        spec_is_printed(
            old(comments)@,
            final(comments)@,
            source.spec_bytes(),
            spec_run_between(old(comments)@.comments, old(comments)@.printed as int, end, next) as int,
            outcome,
            |element: FormatElement|
                spec_is_trailing_document(
                    element,
                    source.spec_bytes(),
                    old(comments)@.comments,
                    old(comments)@.printed as int,
                    spec_run_between(
                        old(comments)@.comments,
                        old(comments)@.printed as int,
                        end,
                        next,
                    ) as int,
                ),
        ),
{
    let due = comments.comments_between(end, next);
    let first = comments.printed_count();
    let total = comments.len();
    let ghost before = comments@;
    let mut items: Vec<FormatElement> = Vec::new();
    let mut i: usize = 0;
    while i < due
        invariant
            i <= due,
            first + due <= total == before.comments.len(),
            before == old(comments)@,
            due == spec_run_between(before.comments, before.printed as int, end, next),
            first == before.printed,
            comments@.wf(),
            comments@.comments == before.comments,
            comments@.printed == first + i,
            items@.len() == i,
            spec_all_fit(source.spec_bytes(), before.comments, first as int, i as int),
            forall|k: int|
                0 <= k < i ==> spec_is_trailing_comment(
                    #[trigger] items@[k],
                    source.spec_bytes(),
                    before.comments[first + k],
                ),
        decreases due - i,
    {
        let comment = comments.get(first + i);
        let text = match slice(source, comment.span.start as usize, comment.span.end as usize) {
            Some(text) => text,
            None => {
                return Err(InvariantViolation::SpanContainment { span: comment.span });
            },
        };
        let ghost earlier = items@;
        let spaced = join(" ", text);
        match comment.kind {
            CommentKind::Line => {
                items.push(FormatElement::LineSuffix(spaced));
            },
            CommentKind::Block => {
                items.push(FormatElement::Text(spaced));
            },
        }
        let counted = comments.increment_printed_count();
        assert(counted is Ok);
        assert forall|k: int| 0 <= k < i + 1 implies spec_is_trailing_comment(
            #[trigger] items@[k],
            source.spec_bytes(),
            before.comments[first + k],
        ) by {
            if k < i {
                assert(items@[k] == earlier[k]);
            }
        }
        i += 1;
    }
    Ok(FormatElement::Concat(items))
}

/// Printing comments marks exactly the comments that were printed, each
/// once, and leaves the marks of all others as they were: no comment is
/// printed twice, and none that was printed is forgotten.
pub proof fn lemma_printing_marks_once(
    before: CommentsView,
    after: CommentsView,
    source: Seq<u8>,
    due: int,
    outcome: Result<FormatElement, InvariantViolation>,
    made: spec_fn(FormatElement) -> bool,
    index: int,
)
    requires
        before.wf(),
        0 <= due,
        spec_is_printed(before, after, source, due, outcome, made),
    ensures
        before.printed <= after.printed <= before.printed + due,
        after.emissions(index) == if before.printed <= index < after.printed {
            1
        } else {
            before.emissions(index)
        },
{
}

} // verus!
