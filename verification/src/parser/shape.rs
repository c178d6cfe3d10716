//! What the trees of the parser look like.
//!
//! Two facts hold of every tree that a rule of the grammar yields.  It
//! covers exactly the tokens that the rule consumed, in their order.  And it
//! is nested by precedence: an operand of an operator binds at least as
//! tightly as the operator, and its right operand more tightly, so that
//! operators of one level nest to the left; the operand of a unary operator
//! is never a binary operation.  Only parentheses put a looser operation
//! inside a tighter one.

use crate::ast::{ExprView, StmtView};
use crate::parser::{
    assignment,
    at_end,
    binary,
    binary_rest,
    check,
    declaration,
    declaration_spans,
    expression,
    is_operator,
    operand,
    operand_spans,
    operator_at,
    primary,
    program,
    rank,
    remaining,
    statement,
    terminated,
    unary,
    var_declaration,
    Level,
};
use crate::scanner::token::{Literal, TokenView};
use crate::scanner::token_type::TokenType;
use vstd::prelude::*;

verus! {

/// How tightly a binary operator binds: 1 for equality up to 4 for factors,
/// and 0 for a token that is no binary operator.
pub open spec fn operator_tightness(kind: TokenType) -> nat {
    if is_operator(Level::Equality, kind) {
        1
    } else if is_operator(Level::Comparison, kind) {
        2
    } else if is_operator(Level::Term, kind) {
        3
    } else if is_operator(Level::Factor, kind) {
        4
    } else {
        0
    }
}

/// How tightly the top of a tree binds: 0 for an assignment, 1 to 4 for a
/// binary operation, 5 for a unary one, and 6 for a literal, a variable and
/// a grouping.
pub open spec fn tightness(tree: ExprView) -> nat {
    match tree {
        ExprView::Assign(_, _) => 0,
        ExprView::Binary(_, operator, _) => operator_tightness(operator.kind),
        ExprView::Unary(_, _) => 5,
        ExprView::Grouping(_) => 6,
        ExprView::Literal(_) => 6,
        ExprView::Variable(_) => 6,
    }
}

/// Whether a tree is nested by precedence.
pub open spec fn nested(tree: ExprView) -> bool
    decreases tree,
{
    match tree {
        ExprView::Literal(_) => true,
        ExprView::Variable(name) => name.kind == TokenType::Identifier,
        ExprView::Grouping(inner) => nested(*inner),
        ExprView::Unary(operator, operand) => {
            &&& operator.kind == TokenType::Bang || operator.kind == TokenType::Minus
            &&& tightness(*operand) >= 5
            &&& nested(*operand)
        },
        ExprView::Binary(left, operator, right) => {
            &&& operator_tightness(operator.kind) >= 1
            &&& tightness(*left) >= operator_tightness(operator.kind)
            &&& tightness(*right) > operator_tightness(operator.kind)
            &&& nested(*left)
            &&& nested(*right)
        },
        ExprView::Assign(name, value) => name.kind == TokenType::Identifier && nested(*value),
    }
}

/// The number of tokens that a tree is written with.
pub open spec fn width(tree: ExprView) -> nat
    decreases tree,
{
    match tree {
        ExprView::Literal(_) => 1,
        ExprView::Variable(_) => 1,
        ExprView::Grouping(inner) => width(*inner) + 2,
        ExprView::Unary(_, operand) => width(*operand) + 1,
        ExprView::Binary(left, _, right) => width(*left) + 1 + width(*right),
        ExprView::Assign(_, value) => width(*value) + 2,
    }
}

/// Whether `token` is a literal token with the value `value`.
pub open spec fn denotes(token: TokenView, value: Literal) -> bool {
    match token.kind {
        TokenType::False => value == Literal::Boolean(false),
        TokenType::True => value == Literal::Boolean(true),
        TokenType::Nil => value == Literal::Nil,
        TokenType::Number => token.literal == Some(value),
        TokenType::StringLiteral => token.literal == Some(value),
        _ => false,
    }
}

/// Whether the tokens from `at` on are those that `tree` is written with:
/// its leaves and operators in order, and a pair of parentheses around each
/// grouping.
pub open spec fn covers(tokens: Seq<TokenView>, at: int, tree: ExprView) -> bool
    decreases tree,
{
    &&& 0 <= at
    &&& at + width(tree) <= tokens.len()
    &&& match tree {
        ExprView::Literal(value) => denotes(tokens[at], value),
        ExprView::Variable(name) => tokens[at] == name,
        ExprView::Grouping(inner) => {
            &&& tokens[at].kind == TokenType::LeftParen
            &&& covers(tokens, at + 1, *inner)
            &&& tokens[at + 1 + width(*inner)].kind == TokenType::RightParen
        },
        ExprView::Unary(operator, operand) => tokens[at] == operator && covers(tokens, at + 1, *operand),
        ExprView::Binary(left, operator, right) => {
            &&& covers(tokens, at, *left)
            &&& tokens[at + width(*left)] == operator
            &&& covers(tokens, at + width(*left) + 1, *right)
        },
        ExprView::Assign(name, value) => {
            &&& tokens[at] == name
            &&& tokens[at + 1].kind == TokenType::Equal
            &&& covers(tokens, at + 2, *value)
        },
    }
}

/// Whether `tree`, as the result of a rule that consumed `used` tokens from
/// `at` on, covers these tokens, is nested by precedence, and binds at least
/// as tightly as `least`.
pub open spec fn shaped(tokens: Seq<TokenView>, at: int, tree: ExprView, used: nat, least: nat) -> bool {
    &&& used == width(tree)
    &&& covers(tokens, at, tree)
    &&& nested(tree)
    &&& tightness(tree) >= least
}

/// A primary is a literal, a variable or a grouping, which covers its
/// tokens.
pub proof fn primary_shape(tokens: Seq<TokenView>, at: int)
    ensures
        primary(tokens, at) matches Ok((tree, used)) ==> shaped(tokens, at, tree, used, 6),
    decreases remaining(tokens, at), 0nat,
{
    if check(tokens, at, TokenType::LeftParen) {
        expression_shape(tokens, at + 1);
    }
}

/// A unary expression binds at least as tightly as a unary operator.
pub proof fn unary_shape(tokens: Seq<TokenView>, at: int)
    ensures
        unary(tokens, at) matches Ok((tree, used)) ==> shaped(tokens, at, tree, used, 5),
    decreases remaining(tokens, at), 1nat,
{
    if check(tokens, at, TokenType::Bang) || check(tokens, at, TokenType::Minus) {
        unary_shape(tokens, at + 1);
    } else {
        primary_shape(tokens, at);
    }
}

/// An operand of a level binds more tightly than the operators of the
/// level.
pub proof fn operand_shape(tokens: Seq<TokenView>, at: int, level: Level)
    ensures
        operand(tokens, at, level) matches Ok((tree, used)) ==> shaped(tokens, at, tree, used, rank(level) + 2),
    decreases remaining(tokens, at), 2 + 3 * (3 - rank(level)),
{
    match level {
        Level::Equality => binary_shape(tokens, at, Level::Comparison),
        Level::Comparison => binary_shape(tokens, at, Level::Term),
        Level::Term => binary_shape(tokens, at, Level::Factor),
        Level::Factor => unary_shape(tokens, at),
    }
}

/// Folding operators and operands into a tree of a level keeps it a tree of
/// the level, over all the tokens from where the tree starts.
pub proof fn binary_rest_shape(tokens: Seq<TokenView>, start: int, at: int, level: Level, left: ExprView)
    requires
        start <= at,
        shaped(tokens, start, left, (at - start) as nat, rank(level) + 1),
    ensures
        binary_rest(tokens, at, level, left) matches Ok((tree, used)) ==> shaped(
            tokens,
            start,
            tree,
            (at - start + used) as nat,
            rank(level) + 1,
        ),
    decreases remaining(tokens, at), 3 + 3 * (3 - rank(level)),
{
    if operator_at(tokens, at, level) {
        operand_shape(tokens, at + 1, level);
        operand_spans(tokens, at + 1, level);
        match operand(tokens, at + 1, level) {
            Ok((right, used)) => {
                let folded = ExprView::Binary(Box::new(left), tokens[at], Box::new(right));
                assert(operator_tightness(tokens[at].kind) == rank(level) + 1);
                assert(shaped(tokens, start, folded, (at + 1 + used - start) as nat, rank(level) + 1));
                binary_rest_shape(tokens, start, at + 1 + used, level, folded);
            },
            Err(_) => {},
        }
    }
}

/// An expression of a level binds at least as tightly as the operators of
/// the level, and operators of the level nest to the left in it.
pub proof fn binary_shape(tokens: Seq<TokenView>, at: int, level: Level)
    ensures
        binary(tokens, at, level) matches Ok((tree, used)) ==> shaped(tokens, at, tree, used, rank(level) + 1),
    decreases remaining(tokens, at), 4 + 3 * (3 - rank(level)),
{
    operand_shape(tokens, at, level);
    match operand(tokens, at, level) {
        Ok((left, used)) => {
            binary_rest_shape(tokens, at, at + used, level, left);
        },
        Err(_) => {},
    }
}

/// An assignment covers its tokens and is nested by precedence; its target
/// is a variable.
pub proof fn assignment_shape(tokens: Seq<TokenView>, at: int)
    ensures
        assignment(tokens, at) matches Ok((tree, used)) ==> shaped(tokens, at, tree, used, 0),
    decreases remaining(tokens, at), 14nat,
{
    binary_shape(tokens, at, Level::Equality);
    match binary(tokens, at, Level::Equality) {
        Ok((target, used)) => {
            if check(tokens, at + used, TokenType::Equal) {
                assignment_shape(tokens, at + used + 1);
            }
        },
        Err(_) => {},
    }
}

/// Every expression that the parser yields covers exactly the tokens that
/// it consumed and is nested by precedence.
pub proof fn expression_shape(tokens: Seq<TokenView>, at: int)
    ensures
        expression(tokens, at) matches Ok((tree, used)) ==> shaped(tokens, at, tree, used, 0),
    decreases remaining(tokens, at), 15nat,
{
    assignment_shape(tokens, at);
}

/// Unary operators bind tighter than every binary operator: in a tree that
/// is nested by precedence, the operand of a unary operation is a literal,
/// a variable, a grouping or another unary operation.
pub proof fn unary_binds_tightest(tree: ExprView)
    requires
        nested(tree),
        tree is Unary,
    ensures
        !(*tree->Unary_1 is Binary),
        !(*tree->Unary_1 is Assign),
{
}

/// Binary operators of one level nest to the left, and tighter operators
/// below looser ones: in a tree that is nested by precedence, the right
/// operand of a binary operation is no operation of its level or of a looser
/// one, and the left operand is none of a looser one.
pub proof fn binary_nests_to_the_left(tree: ExprView)
    requires
        nested(tree),
        tree is Binary,
    ensures
        *tree->Binary_2 matches ExprView::Binary(_, operator, _) ==> operator_tightness(operator.kind)
            > operator_tightness(tree->Binary_1.kind),
        *tree->Binary_0 matches ExprView::Binary(_, operator, _) ==> operator_tightness(operator.kind)
            >= operator_tightness(tree->Binary_1.kind),
        !(*tree->Binary_0 is Assign),
        !(*tree->Binary_2 is Assign),
{
}

/// Whether the expression of a statement is nested by precedence, and the
/// name of a declaration an identifier.
pub open spec fn statement_nested(stmt: StmtView) -> bool {
    match stmt {
        StmtView::Expression(expr) => nested(expr),
        StmtView::Print(expr) => nested(expr),
        StmtView::Var(name, initializer) => name.kind == TokenType::Identifier && match initializer {
            Some(expr) => nested(expr),
            None => true,
        },
    }
}

/// Every statement that the parser yields holds an expression that is
/// nested by precedence.
pub proof fn declaration_shape(tokens: Seq<TokenView>, at: int)
    ensures
        declaration(tokens, at) matches Ok((stmt, _)) ==> statement_nested(stmt),
{
    reveal(declaration);
    reveal(var_declaration);
    reveal(statement);
    reveal(terminated);
    if check(tokens, at, TokenType::Var) {
        expression_shape(tokens, at + 3);
    } else if check(tokens, at, TokenType::Print) {
        expression_shape(tokens, at + 1);
    } else {
        expression_shape(tokens, at);
    }
}

/// Every statement of a program that the parser yields holds an expression
/// that is nested by precedence.
pub proof fn program_shape(tokens: Seq<TokenView>, at: int)
    ensures
        program(tokens, at) matches Ok(statements) ==> forall|i: int|
            0 <= i < statements.len() ==> statement_nested(#[trigger] statements[i]),
    decreases remaining(tokens, at),
{
    if !at_end(tokens, at) {
        declaration_shape(tokens, at);
        declaration_spans(tokens, at);
        match declaration(tokens, at) {
            Ok((stmt, used)) => {
                program_shape(tokens, at + used);
            },
            Err(_) => {},
        }
    }
}

} // verus!
