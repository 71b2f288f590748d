//! The comments of a source text, and which of them have been printed.
//!
//! Comments are kept in the order of the source text and are printed in that
//! order, each exactly once: the table counts how many have been printed, and
//! a run may only end when that is all of them.

use vstd::prelude::*;
use crate::error::InvariantViolation;
use crate::span::Span;

verus! {

/// `// ...` or `/* ... */`.
#[derive(Clone, Copy, Debug, PartialEq, Eq, Structural)]
pub enum CommentKind {
    Line,
    Block,
}

/// One comment: where it stands, delimiters included, and its form.
#[derive(Clone, Copy, Debug, PartialEq, Eq, Structural)]
pub struct Comment {
    pub span: Span,
    pub kind: CommentKind,
}

/// The table as contracts see it.
pub ghost struct CommentsView {
    /// All comments, in the order of the source text.
    pub comments: Seq<Comment>,
    /// How many of them have been printed: the first `printed` ones.
    pub printed: nat,
}

/// No comment begins before one that is listed ahead of it.
pub open spec fn spec_in_order(comments: Seq<Comment>) -> bool {
    forall|i: int, j: int|
        0 <= i <= j < comments.len() ==> (#[trigger] comments[i]).span.start <= (
        #[trigger] comments[j]).span.start
}

/// The comment at which the order is first broken, if it is broken.
pub open spec fn spec_first_out_of_order(comments: Seq<Comment>, from: int) -> Option<int>
    decreases comments.len() - from,
{
    if from < 1 || from >= comments.len() {
        None
    } else if comments[from - 1].span.start > comments[from].span.start {
        Some(from)
    } else {
        spec_first_out_of_order(comments, from + 1)
    }
}

/// The number of comments from `from` on, one after another, that end at or
/// before `position`.
pub open spec fn spec_run_before(comments: Seq<Comment>, from: int, position: u32) -> nat
    decreases comments.len() - from,
{
    if from < 0 || from >= comments.len() || comments[from].span.end > position {
        0
    } else {
        1 + spec_run_before(comments, from + 1, position)
    }
}

/// The number of comments from `from` on, one after another, that lie
/// between `start` and `end`.
pub open spec fn spec_run_between(comments: Seq<Comment>, from: int, start: u32, end: u32) -> nat
    decreases comments.len() - from,
{
    if from < 0 || from >= comments.len() || comments[from].span.start < start
        || comments[from].span.end > end {
        0
    } else {
        1 + spec_run_between(comments, from + 1, start, end)
    }
}

impl CommentsView {
    /// The comments are in order, and no more have been printed than there
    /// are.
    pub open spec fn wf(self) -> bool {
        spec_in_order(self.comments) && self.printed <= self.comments.len()
    }

    /// How often the comment `index` has been printed: once or not yet.
    pub open spec fn emissions(self, index: int) -> nat {
        if 0 <= index < self.printed {
            1
        } else {
            0
        }
    }

    /// The comments that have not been printed yet.
    pub open spec fn unprinted(self) -> Seq<Comment> {
        self.comments.subrange(self.printed as int, self.comments.len() as int)
    }

    /// Every comment has been printed exactly once.
    pub open spec fn all_printed_once(self) -> bool {
        forall|i: int| 0 <= i < self.comments.len() ==> #[trigger] self.emissions(i) == 1
    }
}

/// The comment table of one run.
pub struct Comments {
    comments: Vec<Comment>,
    printed_count: usize,
}

impl View for Comments {
    type V = CommentsView;

    closed spec fn view(&self) -> CommentsView {
        CommentsView { comments: self.comments@, printed: self.printed_count as nat }
    }
}

impl Comments {
    /// The table of `comments`, none of them printed. The comments must be
    /// in the order of the source text; the first one that begins before its
    /// predecessor is reported.
    pub fn new(comments: Vec<Comment>) -> (table: Result<Comments, InvariantViolation>)
        ensures
            match table {
                Ok(table) => spec_in_order(comments@) && table@ == (CommentsView {
                    comments: comments@,
                    printed: 0,
                }) && table@.wf(),
                Err(violation) => spec_first_out_of_order(comments@, 1) matches Some(index)
                    && 1 <= index < comments@.len() && violation
                    == (InvariantViolation::CommentsOutOfOrder { span: comments@[index].span }),
            },
            spec_in_order(comments@) <==> table is Ok,
    {
        let mut i: usize = 1;
        while i < comments.len()
            invariant
                1 <= i,
                spec_first_out_of_order(comments@, 1) == spec_first_out_of_order(comments@, i as int),
                forall|a: int, b: int|
                    0 <= a <= b < i && b < comments.len() ==> (#[trigger] comments@[a]).span.start
                        <= (#[trigger] comments@[b]).span.start,
            decreases comments.len() - i,
        {
            if comments[i - 1].span.start > comments[i].span.start {
                return Err(InvariantViolation::CommentsOutOfOrder { span: comments[i].span });
            }
            assert forall|a: int, b: int| 0 <= a <= b < i + 1 && b < comments.len() implies (
            #[trigger] comments@[a]).span.start <= (#[trigger] comments@[b]).span.start by {
                if b == i && a < i {
                    assert(comments@[a].span.start <= comments@[i - 1].span.start);
                }
            }
            i += 1;
        }
        Ok(Comments { comments, printed_count: 0 })
    }

    /// The number of comments.
    pub fn len(&self) -> (count: usize)
        ensures
            count == self@.comments.len(),
    {
        self.comments.len()
    }

    /// The comment `index`.
    pub fn get(&self, index: usize) -> (comment: Comment)
        requires
            index < self@.comments.len(),
        ensures
            comment == self@.comments[index as int],
    {
        self.comments[index]
    }

    /// The number of comments printed so far.
    pub fn printed_count(&self) -> (count: usize)
        ensures
            count == self@.printed,
    {
        self.printed_count
    }

    /// The comments that have not been printed. They are the comments from
    /// [`Comments::printed_count`] on.
    pub fn unprinted_comments(&self) -> (rest: &[Comment])
        requires
            self@.wf(),
        ensures
            rest@ == self@.unprinted(),
    {
        vstd::slice::slice_subrange(self.comments.as_slice(), self.printed_count, self.comments.len())
    }

    /// The number of comments that are due before `position`: the unprinted
    /// comments, one after another, that end at or before it.
    pub fn comments_before(&self, position: u32) -> (count: usize)
        requires
            self@.wf(),
        ensures
            count == spec_run_before(self@.comments, self@.printed as int, position),
            self@.printed + count <= self@.comments.len(),
    {
        let mut index: usize = self.printed_count;
        while index < self.comments.len()
            invariant
                self.printed_count <= index <= self.comments.len(),
                spec_run_before(self@.comments, self@.printed as int, position) == (index
                    - self.printed_count) + spec_run_before(self@.comments, index as int, position),
            decreases self.comments.len() - index,
        {
            if self.comments[index].span.end > position {
                return index - self.printed_count;
            }
            index += 1;
        }
        index - self.printed_count
    }

    /// Whether a comment is due before `position`.
    pub fn has_comments_before(&self, position: u32) -> (due: bool)
        requires
            self@.wf(),
        ensures
            due == (spec_run_before(self@.comments, self@.printed as int, position) > 0),
    {
        self.printed_count < self.comments.len() && self.comments[self.printed_count].span.end
            <= position
    }

    /// The number of comments that trail a node: the unprinted comments, one
    /// after another, that begin at or after the node's end `end` and end at
    /// or before the start `next` of the token that follows.
    pub fn comments_between(&self, end: u32, next: u32) -> (count: usize)
        requires
            self@.wf(),
        ensures
            count == spec_run_between(self@.comments, self@.printed as int, end, next),
            self@.printed + count <= self@.comments.len(),
    {
        let mut index: usize = self.printed_count;
        while index < self.comments.len()
            invariant
                self.printed_count <= index <= self.comments.len(),
                spec_run_between(self@.comments, self@.printed as int, end, next) == (index
                    - self.printed_count) + spec_run_between(
                    self@.comments,
                    index as int,
                    end,
                    next,
                ),
            decreases self.comments.len() - index,
        {
            let span = self.comments[index].span;
            if span.start < end || span.end > next {
                return index - self.printed_count;
            }
            index += 1;
        }
        index - self.printed_count
    }

    /// Records that the next unprinted comment has been printed. Where every
    /// comment has been printed already, the table is left as it was and the
    /// violation is reported.
    pub fn increment_printed_count(&mut self) -> (counted: Result<(), InvariantViolation>)
        requires
            old(self)@.wf(),
        ensures
            final(self)@.wf(),
            final(self)@.comments == old(self)@.comments,
            match counted {
                Ok(_) => old(self)@.printed < old(self)@.comments.len() && final(self)@.printed
                    == old(self)@.printed + 1,
                Err(violation) => old(self)@.printed == old(self)@.comments.len() && final(self)@
                    == old(self)@ && violation == (InvariantViolation::CommentPrintedTwice {
                    span: spec_last_span(old(self)@.comments),
                }),
            },
    {
        if self.printed_count < self.comments.len() {
            self.printed_count += 1;
            Ok(())
        } else {
            let span = if self.comments.len() > 0 {
                self.comments[self.comments.len() - 1].span
            } else {
                Span::new(0, 0)
            };
            Err(InvariantViolation::CommentPrintedTwice { span })
        }
    }

    /// Ends the run: every comment must have been printed. The first one
    /// that was not is reported.
    pub fn finish(&self) -> (done: Result<(), InvariantViolation>)
        requires
            self@.wf(),
        ensures
            done is Ok <==> self@.all_printed_once(),
            done matches Err(violation) ==> violation == (InvariantViolation::CommentNotPrinted {
                span: self@.comments[self@.printed as int].span,
            }),
    {
        if self.printed_count < self.comments.len() {
            assert(self@.emissions(self@.printed as int) == 0);
            Err(InvariantViolation::CommentNotPrinted { span: self.comments[self.printed_count].span })
        } else {
            Ok(())
        }
    }
}

/// The span of the last comment, or the empty span at offset 0 where there
/// is no comment.
pub open spec fn spec_last_span(comments: Seq<Comment>) -> Span {
    if comments.len() > 0 {
        comments[comments.len() - 1].span
    } else {
        Span { start: 0, end: 0 }
    }
}

/// No comment is ever printed more than once, whatever has been recorded.
pub proof fn lemma_never_printed_twice(table: CommentsView, index: int)
    ensures
        table.emissions(index) <= 1,
{
}

/// When a run may end, the printed comments are all comments, each once and
/// in the order of the source text.
pub proof fn lemma_finished_run_printed_all(table: CommentsView)
    requires
        table.wf(),
        table.all_printed_once(),
    ensures
        table.printed == table.comments.len(),
        table.unprinted() =~= Seq::<Comment>::empty(),
{
    if table.printed < table.comments.len() {
        assert(table.emissions(table.printed as int) == 0);
    }
}

/// The comments that are due before a position are due before every later
/// position too.
pub proof fn lemma_run_before_grows(comments: Seq<Comment>, from: int, early: u32, late: u32)
    requires
        early <= late,
    ensures
        spec_run_before(comments, from, early) <= spec_run_before(comments, from, late),
    decreases comments.len() - from,
{
    if 0 <= from < comments.len() && comments[from].span.end <= early {
        lemma_run_before_grows(comments, from + 1, early, late);
    }
}

} // verus!
