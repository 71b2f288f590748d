//! The parentheses that the operand rule asks for are enough: a text printed
//! with them reads back as the tree that it was printed from.
//!
//! The claim is made of trees of binary and logical operators over operands,
//! printed as a line of tokens, and of the reading that gives every operator
//! its precedence and its associativity and nothing else.

use vstd::prelude::*;
use crate::operator::BinaryLikeOperator;
use crate::parentheses::expression::spec_operand_needs_parens;
use crate::parentheses::laws::{lemma_required_parentheses_are_kept, spec_grouping_requires_parens};

verus! {

/// A tree of operators over numbered operands.
pub ghost enum Grouping {
    Operand(nat),
    Operation { operator: BinaryLikeOperator, left: Box<Grouping>, right: Box<Grouping> },
}

/// What a printed expression is made of.
pub ghost enum Token {
    Operand(nat),
    Operator(BinaryLikeOperator),
    Open,
    Close,
}

/// The operand `child` of an operation with `parent` is printed in
/// parentheses: it is an operation itself, and the operand rule asks for
/// them.
pub open spec fn spec_is_wrapped_operand(
    parent: BinaryLikeOperator,
    child: Grouping,
    is_right: bool,
) -> bool {
    child matches Grouping::Operation { operator, .. } && spec_operand_needs_parens(
        parent,
        operator,
        is_right,
    )
}

/// The tokens of a tree: its operands and operators in their order, with
/// parentheses around the operands that are printed in parentheses.
pub open spec fn spec_tokens(tree: Grouping) -> Seq<Token>
    decreases tree, 0nat,
{
    match tree {
        Grouping::Operand(number) => seq![Token::Operand(number)],
        Grouping::Operation { operator, left, right } => spec_operand_tokens(operator, *left, false)
            + seq![Token::Operator(operator)] + spec_operand_tokens(operator, *right, true),
    }
}

/// The tokens of an operand of an operation with `parent`.
pub open spec fn spec_operand_tokens(
    parent: BinaryLikeOperator,
    child: Grouping,
    is_right: bool,
) -> Seq<Token>
    decreases child, 1nat,
{
    if spec_is_wrapped_operand(parent, child, is_right) {
        seq![Token::Open] + spec_tokens(child) + seq![Token::Close]
    } else {
        spec_tokens(child)
    }
}

/// How tightly an operator binds.
pub open spec fn spec_binding(operator: BinaryLikeOperator) -> nat {
    operator.spec_precedence().spec_rank()
}

/// The least binding that an operator may have to stand bare in the right
/// operand of `operator`: its own binding where it groups from the right,
/// the next tighter one where it groups from the left.
pub open spec fn spec_right_bound(operator: BinaryLikeOperator) -> nat {
    if operator.spec_precedence().spec_is_right_associative() {
        spec_binding(operator)
    } else {
        spec_binding(operator) + 1
    }
}

/// The tokens begin with an operator that binds at least as tightly as
/// `least`: the reading of an expression at that level goes on with it.
pub open spec fn spec_goes_on(tokens: Seq<Token>, least: nat) -> bool {
    tokens.len() > 0 && (tokens[0] matches Token::Operator(operator) && spec_binding(operator)
        >= least)
}

/// Reads one operand from the start of the tokens: a number, or an
/// expression in parentheses. Gives the operand and the tokens that are
/// left, or `None` where the tokens do not begin with an operand.
pub open spec fn spec_read_operand(tokens: Seq<Token>) -> Option<(Grouping, Seq<Token>)>
    decreases tokens.len(), 0nat,
{
    if tokens.len() == 0 {
        None
    } else {
        match tokens[0] {
            Token::Operand(number) => Some((Grouping::Operand(number), tokens.skip(1))),
            Token::Open => match spec_read_expression(tokens.skip(1), 0) {
                Some((inner, rest)) => if rest.len() > 0 && rest[0] is Close {
                    Some((inner, rest.skip(1)))
                } else {
                    None
                },
                None => None,
            },
            _ => None,
        }
    }
}

/// Reads an expression from the start of the tokens, taking in every
/// operator that binds at least as tightly as `least`.
pub open spec fn spec_read_expression(tokens: Seq<Token>, least: nat) -> Option<
    (Grouping, Seq<Token>),
>
    decreases tokens.len(), 2nat,
{
    match spec_read_operand(tokens) {
        Some((first, rest)) => if rest.len() < tokens.len() {
            spec_read_tail(first, rest, least)
        } else {
            None
        },
        None => None,
    }
}

/// Goes on reading after `left` has been read: for as long as an operator
/// follows that binds at least as tightly as `least`, its right operand is
/// read at the operator's right bound and joined to what was read.
pub open spec fn spec_read_tail(left: Grouping, tokens: Seq<Token>, least: nat) -> Option<
    (Grouping, Seq<Token>),
>
    decreases tokens.len(), 1nat,
{
    if spec_goes_on(tokens, least) {
        let operator = tokens[0]->Operator_0;
        match spec_read_expression(tokens.skip(1), spec_right_bound(operator)) {
            Some((right, rest)) => if rest.len() < tokens.len() {
                spec_read_tail(
                    Grouping::Operation { operator, left: Box::new(left), right: Box::new(right) },
                    rest,
                    least,
                )
            } else {
                None
            },
            None => None,
        }
    } else {
        Some((left, tokens))
    }
}

/// Every operator on the left edge of the printed tree binds at least as
/// tightly as `least`.
pub open spec fn spec_edge_binds(tree: Grouping, least: nat) -> bool
    decreases tree,
{
    match tree {
        Grouping::Operand(_) => true,
        Grouping::Operation { operator, left, .. } => spec_binding(operator) >= least && (
        spec_is_wrapped_operand(operator, *left, false) || spec_edge_binds(*left, least)),
    }
}

/// The right bound of the operator at the top of a tree; 0 for an operand.
pub open spec fn spec_top_right_bound(tree: Grouping) -> nat {
    match tree {
        Grouping::Operand(_) => 0,
        Grouping::Operation { operator, .. } => spec_right_bound(operator),
    }
}

/// The binding of the operator at the top of a tree; 0 for an operand.
pub open spec fn spec_top_binding(tree: Grouping) -> nat {
    match tree {
        Grouping::Operand(_) => 0,
        Grouping::Operation { operator, .. } => spec_binding(operator),
    }
}

/// The left edge of a tree binds at least as tightly as any level below
/// one that it is known to reach.
proof fn lemma_edge_binds_looser(tree: Grouping, least: nat, looser: nat)
    requires
        spec_edge_binds(tree, least),
        looser <= least,
    ensures
        spec_edge_binds(tree, looser),
    decreases tree,
{
    if let Grouping::Operation { operator, left, .. } = tree {
        if !spec_is_wrapped_operand(operator, *left, false) {
            lemma_edge_binds_looser(*left, least, looser);
        }
    }
}

/// Down the left edge of a printed tree the operators bind ever tighter, or
/// as tightly: the edge binds at least as tightly as the top.
proof fn lemma_edge_binds_as_top(tree: Grouping)
    ensures
        spec_edge_binds(tree, spec_top_binding(tree)),
    decreases tree,
{
    match tree {
        Grouping::Operand(_) => {},
        Grouping::Operation { operator, left, .. } => {
            if !spec_is_wrapped_operand(operator, *left, false) {
                lemma_edge_binds_as_top(*left);
                match *left {
                    Grouping::Operand(_) => {},
                    Grouping::Operation { operator: below, .. } => {
                        if spec_grouping_requires_parens(operator, below, false) {
                            lemma_required_parentheses_are_kept(operator, below, false);
                        }
                        lemma_edge_binds_looser(
                            *left,
                            spec_binding(below),
                            spec_binding(operator),
                        );
                    },
                }
                assert(spec_edge_binds(*left, spec_binding(operator)));
            }
        },
    }
}

/// A bare left operand binds tightly enough for its own right operand to
/// end where the parent's operator begins.
proof fn lemma_bare_left_operand(parent: BinaryLikeOperator, child: BinaryLikeOperator)
    requires
        !spec_operand_needs_parens(parent, child, false),
    ensures
        spec_binding(parent) < spec_right_bound(child),
{
    if spec_grouping_requires_parens(parent, child, false) {
        lemma_required_parentheses_are_kept(parent, child, false);
    }
}

/// A bare right operand binds at least as tightly as the right bound of its
/// parent.
proof fn lemma_bare_right_operand(parent: BinaryLikeOperator, child: BinaryLikeOperator)
    requires
        !spec_operand_needs_parens(parent, child, true),
    ensures
        spec_binding(child) >= spec_right_bound(parent),
{
    if spec_grouping_requires_parens(parent, child, true) {
        lemma_required_parentheses_are_kept(parent, child, true);
    }
}

/// Reading the tokens of a tree, followed by any tokens `after` with which
/// the right operand of the tree's top operator ends, takes in the tree and
/// goes on from there.
proof fn lemma_read_tree(tree: Grouping, least: nat, after: Seq<Token>)
    requires
        spec_edge_binds(tree, least),
        tree is Operation ==> !spec_goes_on(after, spec_top_right_bound(tree)),
    ensures
        spec_read_expression(spec_tokens(tree) + after, least) == spec_read_tail(tree, after, least),
        spec_tokens(tree).len() > 0,
    decreases tree, 1nat,
{
    match tree {
        Grouping::Operand(number) => {
            let tokens = spec_tokens(tree) + after;
            assert(tokens[0] == Token::Operand(number));
            assert(tokens.skip(1) =~= after);
        },
        Grouping::Operation { operator, left, right } => {
            let left_tokens = spec_operand_tokens(operator, *left, false);
            let right_tokens = spec_operand_tokens(operator, *right, true);
            let behind_left = seq![Token::Operator(operator)] + (right_tokens + after);
            let tokens = spec_tokens(tree) + after;
            assert(tokens =~= left_tokens + behind_left);
            // The left operand is read, and the reading goes on behind it.
            if spec_is_wrapped_operand(operator, *left, false) {
                lemma_read_wrapped(*left, behind_left);
                assert(left_tokens + behind_left =~= seq![Token::Open] + spec_tokens(*left) + (
                seq![Token::Close] + behind_left));
            } else {
                if let Grouping::Operation { operator: below, .. } = *left {
                    lemma_bare_left_operand(operator, below);
                }
                assert(behind_left[0] == Token::Operator(operator));
                lemma_read_tree(*left, least, behind_left);
            }
            assert(spec_read_expression(tokens, least) == spec_read_tail(
                *left,
                behind_left,
                least,
            ));
            // The operator is taken in, and the right operand is read whole.
            assert(spec_goes_on(behind_left, least));
            assert(behind_left.skip(1) =~= right_tokens + after);
            lemma_read_operand_whole(operator, *right, after);
            assert(right_tokens.len() > 0);
            assert(after.len() < behind_left.len());
        },
    }
}

/// Reading the tokens of a tree in parentheses, followed by any tokens,
/// takes in the tree as one operand.
proof fn lemma_read_wrapped(tree: Grouping, after: Seq<Token>)
    ensures
        spec_read_operand(seq![Token::Open] + spec_tokens(tree) + (seq![Token::Close] + after))
            == Some((tree, after)),
    decreases tree, 2nat,
{
    let closing = seq![Token::Close] + after;
    let tokens = seq![Token::Open] + spec_tokens(tree) + closing;
    assert(tokens[0] == Token::Open);
    assert(tokens.skip(1) =~= spec_tokens(tree) + closing);
    lemma_edge_binds_as_top(tree);
    lemma_edge_binds_looser(tree, spec_top_binding(tree), 0);
    assert(closing[0] == Token::Close);
    lemma_read_tree(tree, 0, closing);
    assert(spec_read_tail(tree, closing, 0) == Some((tree, closing)));
    assert(closing.skip(1) =~= after);
}

/// Reading the tokens of the right operand of an operation, followed by
/// tokens with which the operand ends, takes in the operand and nothing
/// more.
proof fn lemma_read_operand_whole(parent: BinaryLikeOperator, child: Grouping, after: Seq<Token>)
    requires
        !spec_goes_on(after, spec_right_bound(parent)),
    ensures
        spec_read_expression(
            spec_operand_tokens(parent, child, true) + after,
            spec_right_bound(parent),
        ) == Some((child, after)),
        spec_operand_tokens(parent, child, true).len() > 0,
    decreases child, 3nat,
{
    let least = spec_right_bound(parent);
    if spec_is_wrapped_operand(parent, child, true) {
        lemma_read_wrapped(child, after);
        let tokens = spec_operand_tokens(parent, child, true) + after;
        assert(tokens =~= seq![Token::Open] + spec_tokens(child) + (seq![Token::Close] + after));
        assert(after.len() < tokens.len());
    } else {
        lemma_edge_binds_as_top(child);
        if let Grouping::Operation { operator, .. } = child {
            lemma_bare_right_operand(parent, operator);
        }
        if spec_top_binding(child) >= least {
            lemma_edge_binds_looser(child, spec_top_binding(child), least);
        }
        lemma_read_tree(child, least, after);
    }
}

/// A text printed with the parentheses that the operand rule asks for reads
/// back as the tree that it was printed from, to its last token.
pub proof fn lemma_printed_tree_reads_back(tree: Grouping)
    ensures
        spec_read_expression(spec_tokens(tree), 0) == Some((tree, Seq::<Token>::empty())),
{
    lemma_edge_binds_as_top(tree);
    lemma_edge_binds_looser(tree, spec_top_binding(tree), 0);
    let nothing = Seq::<Token>::empty();
    lemma_read_tree(tree, 0, nothing);
    assert(spec_tokens(tree) + nothing =~= spec_tokens(tree));
}

/// Printing what was read back from a printed text gives the same text
/// again.
pub proof fn lemma_printing_twice_changes_nothing(tree: Grouping)
    ensures
        spec_read_expression(spec_tokens(tree), 0) matches Some((again, _)) && spec_tokens(again)
            == spec_tokens(tree),
{
    lemma_printed_tree_reads_back(tree);
}

} // verus!
