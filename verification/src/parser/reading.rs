//! The parser reads every tree back from its tokens.
//!
//! [`crate::parser::shape`] shows that what the parser yields covers its
//! tokens and is nested by precedence.  This module shows the converse:
//! a tree that is nested by precedence, written out as tokens, is what the
//! parser yields for these tokens, provided that no operator follows them.
//! So the tokens of an expression have one tree that is nested by
//! precedence, and the parser finds it.

use crate::ast::{size, ExprView};
use crate::parser::shape::{covers, nested, operator_tightness, tightness, width};
use crate::parser::{
    assignment,
    at_end,
    binary,
    binary_rest,
    check,
    expression,
    is_operator,
    operand,
    operator_at,
    primary,
    rank,
    shifted,
    unary,
    Failure,
    Level,
};
use crate::scanner::token::TokenView;
use crate::scanner::token_type::TokenType;
use vstd::prelude::*;

verus! {

/// Whether an operand ends before `at`: no binary operator that binds at
/// least as tightly as `least` stands there.
pub open spec fn stops(tokens: Seq<TokenView>, at: int, least: nat) -> bool {
    at_end(tokens, at) || operator_tightness(tokens[at].kind) < least
}

/// Whether an expression ends before `at`: neither a binary operator nor
/// `=` stands there.
pub open spec fn ends(tokens: Seq<TokenView>, at: int) -> bool {
    stops(tokens, at, 1) && !check(tokens, at, TokenType::Equal)
}

/// The first operand of a chain of operators that bind as tightly as
/// `tight`: the leftmost part of `tree` that is no such operation.
pub open spec fn first_operand(tree: ExprView, tight: nat) -> ExprView
    decreases tree,
{
    match tree {
        ExprView::Binary(left, operator, _) => if operator_tightness(operator.kind) == tight {
            first_operand(*left, tight)
        } else {
            tree
        },
        _ => tree,
    }
}

/// Whether `part` is `tree` or a left operand, through operators that bind
/// as tightly as `tight`, of `tree`.
pub open spec fn on_left_spine(part: ExprView, tree: ExprView, tight: nat) -> bool
    decreases tree,
{
    part == tree || match tree {
        ExprView::Binary(left, operator, _) => operator_tightness(operator.kind) == tight && on_left_spine(
            part,
            *left,
            tight,
        ),
        _ => false,
    }
}

/// The operators of a level are those of its tightness.
pub proof fn operators_of_level(level: Level, kind: TokenType)
    ensures
        is_operator(level, kind) <==> operator_tightness(kind) == rank(level) + 1,
{
}

/// The first operand of a chain is on its left spine, starts where the
/// chain starts, binds more tightly than the chain's operators, and is
/// followed by one of them unless it is the whole chain.
pub proof fn first_operand_leads(tokens: Seq<TokenView>, at: int, tree: ExprView, tight: nat)
    requires
        1 <= tight <= 4,
        nested(tree),
        covers(tokens, at, tree),
        tightness(tree) >= tight,
    ensures
        on_left_spine(first_operand(tree, tight), tree, tight),
        nested(first_operand(tree, tight)),
        covers(tokens, at, first_operand(tree, tight)),
        tightness(first_operand(tree, tight)) >= tight + 1,
        size(first_operand(tree, tight)) <= size(tree),
        first_operand(tree, tight) != tree ==> {
            &&& size(first_operand(tree, tight)) < size(tree)
            &&& !at_end(tokens, at + width(first_operand(tree, tight)))
            &&& operator_tightness(tokens[at + width(first_operand(tree, tight))].kind) == tight
        },
    decreases tree,
{
    match tree {
        ExprView::Binary(left, operator, _) => {
            if operator_tightness(operator.kind) == tight {
                first_operand_leads(tokens, at, *left, tight);
            }
        },
        _ => {},
    }
}

/// A tree that binds as tightly as a primary is what `primary` yields for
/// its tokens.
pub proof fn primary_reads(tokens: Seq<TokenView>, at: int, tree: ExprView)
    requires
        nested(tree),
        covers(tokens, at, tree),
        tightness(tree) >= 6,
    ensures
        primary(tokens, at) == Ok::<(ExprView, nat), Failure>((tree, width(tree))),
    decreases size(tree), 0nat,
{
    match tree {
        ExprView::Grouping(inner) => {
            expression_reads(tokens, at + 1, *inner);
        },
        _ => {},
    }
}

/// A tree that binds at least as tightly as a unary operation is what
/// `unary` yields for its tokens.
pub proof fn unary_reads(tokens: Seq<TokenView>, at: int, tree: ExprView)
    requires
        nested(tree),
        covers(tokens, at, tree),
        tightness(tree) >= 5,
    ensures
        unary(tokens, at) == Ok::<(ExprView, nat), Failure>((tree, width(tree))),
    decreases size(tree), 1nat,
{
    match tree {
        ExprView::Unary(operator, inner) => {
            unary_reads(tokens, at + 1, *inner);
        },
        _ => {
            primary_reads(tokens, at, tree);
        },
    }
}

/// A tree that binds more tightly than the operators of a level, before a
/// token that is no tighter operator, is what `operand` yields for its
/// tokens.
pub proof fn operand_reads(tokens: Seq<TokenView>, at: int, tree: ExprView, level: Level)
    requires
        nested(tree),
        covers(tokens, at, tree),
        tightness(tree) >= rank(level) + 2,
        stops(tokens, at + width(tree), rank(level) + 2),
    ensures
        operand(tokens, at, level) == Ok::<(ExprView, nat), Failure>((tree, width(tree))),
    decreases size(tree), 2 * (4 - rank(level)),
{
    match level {
        Level::Equality => binary_reads(tokens, at, tree, Level::Comparison),
        Level::Comparison => binary_reads(tokens, at, tree, Level::Term),
        Level::Term => binary_reads(tokens, at, tree, Level::Factor),
        Level::Factor => unary_reads(tokens, at, tree),
    }
}

/// What follows a part of the left spine of a tree of a level is what
/// follows the tree, and makes the tree of the part.
pub proof fn rest_reads(tokens: Seq<TokenView>, at: int, part: ExprView, tree: ExprView, level: Level)
    requires
        nested(tree),
        covers(tokens, at, tree),
        on_left_spine(part, tree, rank(level) + 1),
        stops(tokens, at + width(tree), rank(level) + 2),
    ensures
        width(part) <= width(tree),
        binary_rest(tokens, at + width(part), level, part) == shifted(
            binary_rest(tokens, at + width(tree), level, tree),
            (width(tree) - width(part)) as nat,
        ),
    decreases size(tree), 0nat,
{
    if part == tree {
        match binary_rest(tokens, at + width(tree), level, tree) {
            Ok((_, used)) => {},
            Err(_) => {},
        }
    } else {
        match tree {
            ExprView::Binary(left, operator, right) => {
                let middle = at + width(*left);
                operators_of_level(level, operator.kind);
                assert(operator_at(tokens, middle, level));
                rest_reads(tokens, at, part, *left, level);
                operand_reads(tokens, middle + 1, *right, level);
                assert(binary_rest(tokens, middle, level, *left) == shifted(
                    binary_rest(tokens, at + width(tree), level, tree),
                    1 + width(*right),
                ));
                match binary_rest(tokens, at + width(tree), level, tree) {
                    Ok((_, used)) => {},
                    Err(_) => {},
                }
            },
            _ => {},
        }
    }
}

/// A tree that binds at least as tightly as the operators of a level,
/// before a token that is no operator of the level and no tighter one, is
/// what `binary` yields for its tokens.
pub proof fn binary_reads(tokens: Seq<TokenView>, at: int, tree: ExprView, level: Level)
    requires
        nested(tree),
        covers(tokens, at, tree),
        tightness(tree) >= rank(level) + 1,
        stops(tokens, at + width(tree), rank(level) + 1),
    ensures
        binary(tokens, at, level) == Ok::<(ExprView, nat), Failure>((tree, width(tree))),
    decreases size(tree), 2 * (4 - rank(level)) + 1,
{
    let tight = rank(level) + 1;
    let first = first_operand(tree, tight);
    first_operand_leads(tokens, at, tree, tight);
    operand_reads(tokens, at, first, level);
    rest_reads(tokens, at, first, tree, level);
    let end = at + width(tree);
    if !at_end(tokens, end) {
        operators_of_level(level, tokens[end].kind);
    }
    assert(!operator_at(tokens, end, level));
    assert(binary_rest(tokens, end, level, tree) == Ok::<(ExprView, nat), Failure>((tree, 0)));
}

/// A tree that is nested by precedence, before a token that is neither a
/// binary operator nor `=`, is what `assignment` yields for its tokens.
pub proof fn assignment_reads(tokens: Seq<TokenView>, at: int, tree: ExprView)
    requires
        nested(tree),
        covers(tokens, at, tree),
        ends(tokens, at + width(tree)),
    ensures
        assignment(tokens, at) == Ok::<(ExprView, nat), Failure>((tree, width(tree))),
    decreases size(tree), 20nat,
{
    match tree {
        ExprView::Assign(name, value) => {
            let target = ExprView::Variable(name);
            assert(operator_tightness(TokenType::Equal) == 0);
            binary_reads(tokens, at, target, Level::Equality);
            assignment_reads(tokens, at + 2, *value);
        },
        _ => {
            binary_reads(tokens, at, tree, Level::Equality);
        },
    }
}

/// The parser reads a tree back from its tokens: a tree that is nested by
/// precedence, written out as tokens before a token that is neither a
/// binary operator nor `=`, is what `expression` yields for these tokens.
pub proof fn expression_reads(tokens: Seq<TokenView>, at: int, tree: ExprView)
    requires
        nested(tree),
        covers(tokens, at, tree),
        ends(tokens, at + width(tree)),
    ensures
        expression(tokens, at) == Ok::<(ExprView, nat), Failure>((tree, width(tree))),
    decreases size(tree), 21nat,
{
    assignment_reads(tokens, at, tree);
}

/// The tokens of an expression have one tree: two trees that are nested by
/// precedence and written with the same tokens, each before the end of an
/// expression, are one tree.
pub proof fn one_tree(tokens: Seq<TokenView>, at: int, one: ExprView, other: ExprView)
    requires
        nested(one),
        nested(other),
        covers(tokens, at, one),
        covers(tokens, at, other),
        ends(tokens, at + width(one)),
        ends(tokens, at + width(other)),
    ensures
        one == other,
{
    expression_reads(tokens, at, one);
    expression_reads(tokens, at, other);
}

} // verus!
