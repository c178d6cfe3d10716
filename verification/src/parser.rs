//! The parser: tokens to statements, by recursive descent.
//!
//! The grammar, from the loosest binding to the tightest:
//!
//! ```text
//! declaration → "var" IDENT ( "=" expression )? ";" | statement
//! statement   → "print" expression ";" | expression ";"
//! expression  → assignment
//! assignment  → IDENT "=" assignment | equality
//! equality    → comparison ( ( "!=" | "==" ) comparison )*
//! comparison  → term ( ( ">" | ">=" | "<" | "<=" ) term )*
//! term        → factor ( ( "-" | "+" ) factor )*
//! factor      → unary ( ( "/" | "*" ) unary )*
//! unary       → ( "!" | "-" ) unary | primary
//! primary     → NUMBER | STRING | "true" | "false" | "nil" | IDENT
//!             | "(" expression ")"
//! ```
//!
//! The spec functions of this module say what each rule makes of a token
//! sequence at a position; the methods of [`Parser`] are proved to compute
//! exactly that.

pub mod reading;
pub mod shape;

use crate::ast::{Expr, ExprView, Stmt, StmtView};
use crate::errors::{syntax, Diagnostic, Error, LoxResult};
use crate::scanner::token::{Literal, LiteralType, Token, TokenView};
use crate::scanner::token_type::TokenType;
use vstd::prelude::*;

verus! {

/// Message of the syntax error for a `var` without a name.
pub const EXPECT_VARIABLE_NAME: &'static str = "Expect variable name.";

/// Message of the syntax error for a declaration without its semicolon.
pub const EXPECT_SEMICOLON_AFTER_DECLARATION: &'static str = "Expect ';' after variable declaration.";

/// Message of the syntax error for a `print` without its semicolon.
pub const EXPECT_SEMICOLON_AFTER_VALUE: &'static str = "Expect ; after value.";

/// Message of the syntax error for an expression without its semicolon.
pub const EXPECT_SEMICOLON_AFTER_EXPRESSION: &'static str = "Expect ; after expression.";

/// Message of the syntax error for an assignment to what is no variable.
pub const INVALID_ASSIGNMENT_TARGET: &'static str = "Invalid assignment target";

/// Message of the syntax error for a parenthesis that is not closed.
pub const EXPECT_RIGHT_PAREN: &'static str = "Expect ')' after expression";

/// Message of the syntax error for a token that starts no expression.
pub const EXPECT_EXPRESSION: &'static str = "Expect expression";

/// Where and why a rule failed.
pub struct Failure {
    /// The diagnostic; its line is that of the offending token.
    pub error: Diagnostic,
    /// The position at which the parser stopped.
    pub at: int,
}

/// What a rule makes of the tokens at a position: a tree and the number of
/// tokens that it spans, or a failure.
pub type Parsed<T> = Result<(T, nat), Failure>;

/// Whether `at` is the end of the input: the end-of-input token, or the end
/// of the sequence.
pub open spec fn at_end(tokens: Seq<TokenView>, at: int) -> bool {
    !(0 <= at < tokens.len()) || tokens[at].kind == TokenType::EOF
}

/// Whether the token at `at` is of the given kind; the end of the input is
/// of no kind.
pub open spec fn check(tokens: Seq<TokenView>, at: int, kind: TokenType) -> bool {
    !at_end(tokens, at) && tokens[at].kind == kind
}

/// The line on which an error at `at` is reported: that of the token there;
/// past the last token, that of the last token, and 1 where there is none.
pub open spec fn line_at(tokens: Seq<TokenView>, at: int) -> usize {
    if 0 <= at < tokens.len() {
        tokens[at].line
    } else if tokens.len() > 0 {
        tokens.last().line
    } else {
        1
    }
}

/// The number of tokens from `at` on.
pub open spec fn remaining(tokens: Seq<TokenView>, at: int) -> nat {
    if at < tokens.len() {
        (tokens.len() - at) as nat
    } else {
        0
    }
}

/// The failure of a rule at `at`, with the given message.
pub open spec fn failure<T>(tokens: Seq<TokenView>, at: int, message: Seq<char>) -> Parsed<T> {
    Err(Failure { error: syntax(line_at(tokens, at), message), at })
}

/// The levels of left-associative binary operators, from the loosest binding
/// to the tightest.
pub enum Level {
    Equality,
    Comparison,
    Term,
    Factor,
}

/// How tightly a level binds.
pub open spec fn rank(level: Level) -> nat {
    match level {
        Level::Equality => 0,
        Level::Comparison => 1,
        Level::Term => 2,
        Level::Factor => 3,
    }
}

/// Whether a token of the given kind is an operator of the level.
pub open spec fn is_operator(level: Level, kind: TokenType) -> bool {
    match level {
        Level::Equality => kind == TokenType::BangEqual || kind == TokenType::EqualEqual,
        Level::Comparison => kind == TokenType::Greater || kind == TokenType::GreaterEqual || kind
            == TokenType::Less || kind == TokenType::LessEqual,
        Level::Term => kind == TokenType::Minus || kind == TokenType::Plus,
        Level::Factor => kind == TokenType::Slash || kind == TokenType::Star,
    }
}

/// Whether an operator of the level stands at `at`.
pub open spec fn operator_at(tokens: Seq<TokenView>, at: int, level: Level) -> bool {
    !at_end(tokens, at) && is_operator(level, tokens[at].kind)
}

/// `primary`: a literal, a variable, or an expression in parentheses.
pub open spec fn primary(tokens: Seq<TokenView>, at: int) -> Parsed<ExprView>
    decreases remaining(tokens, at), 0nat,
{
    if check(tokens, at, TokenType::False) {
        Ok((ExprView::Literal(Literal::Boolean(false)), 1))
    } else if check(tokens, at, TokenType::True) {
        Ok((ExprView::Literal(Literal::Boolean(true)), 1))
    } else if check(tokens, at, TokenType::Nil) {
        Ok((ExprView::Literal(Literal::Nil), 1))
    } else if check(tokens, at, TokenType::Number) || check(tokens, at, TokenType::StringLiteral) {
        match tokens[at].literal {
            Some(value) => Ok((ExprView::Literal(value), 1)),
            None => Err(Failure { error: syntax(tokens[at].line, EXPECT_EXPRESSION@), at: at + 1 }),
        }
    } else if check(tokens, at, TokenType::Identifier) {
        Ok((ExprView::Variable(tokens[at]), 1))
    } else if check(tokens, at, TokenType::LeftParen) {
        match expression(tokens, at + 1) {
            Ok((inner, used)) => if check(tokens, at + 1 + used, TokenType::RightParen) {
                Ok((ExprView::Grouping(Box::new(inner)), used + 2))
            } else {
                failure(tokens, at + 1 + used, EXPECT_RIGHT_PAREN@)
            },
            Err(reason) => Err(reason),
        }
    } else {
        failure(tokens, at, EXPECT_EXPRESSION@)
    }
}

/// `unary`: any number of `!` and `-`, then a primary.
pub open spec fn unary(tokens: Seq<TokenView>, at: int) -> Parsed<ExprView>
    decreases remaining(tokens, at), 1nat,
{
    if check(tokens, at, TokenType::Bang) || check(tokens, at, TokenType::Minus) {
        match unary(tokens, at + 1) {
            Ok((operand, used)) => Ok((ExprView::Unary(tokens[at], Box::new(operand)), used + 1)),
            Err(reason) => Err(reason),
        }
    } else {
        primary(tokens, at)
    }
}

/// An operand of a binary level: an expression of the next tighter level.
pub open spec fn operand(tokens: Seq<TokenView>, at: int, level: Level) -> Parsed<ExprView>
    decreases remaining(tokens, at), 2 + 3 * (3 - rank(level)),
{
    match level {
        Level::Equality => binary(tokens, at, Level::Comparison),
        Level::Comparison => binary(tokens, at, Level::Term),
        Level::Term => binary(tokens, at, Level::Factor),
        Level::Factor => unary(tokens, at),
    }
}

/// What follows the operand `left` of a binary level: as long as an operator
/// of the level comes next, it and the operand behind it are folded into
/// `left`, which makes the level left-associative.  The count is that of the
/// tokens behind `left`.
pub open spec fn binary_rest(tokens: Seq<TokenView>, at: int, level: Level, left: ExprView) -> Parsed<
    ExprView,
>
    decreases remaining(tokens, at), 3 + 3 * (3 - rank(level)),
{
    if operator_at(tokens, at, level) {
        match operand(tokens, at + 1, level) {
            Ok((right, used)) => match binary_rest(
                tokens,
                at + 1 + used,
                level,
                ExprView::Binary(Box::new(left), tokens[at], Box::new(right)),
            ) {
                Ok((tree, more)) => Ok((tree, 1 + used + more)),
                Err(reason) => Err(reason),
            },
            Err(reason) => Err(reason),
        }
    } else {
        Ok((left, 0))
    }
}

/// A binary level: operands of the next tighter level, joined by operators
/// of the level.
pub open spec fn binary(tokens: Seq<TokenView>, at: int, level: Level) -> Parsed<ExprView>
    decreases remaining(tokens, at), 4 + 3 * (3 - rank(level)),
{
    match operand(tokens, at, level) {
        Ok((left, used)) => match binary_rest(tokens, at + used, level, left) {
            Ok((tree, more)) => Ok((tree, used + more)),
            Err(reason) => Err(reason),
        },
        Err(reason) => Err(reason),
    }
}

/// `assignment`: an equality, or a variable, `=` and an assignment.  The
/// value is parsed before the target is looked at; a target that is no
/// variable fails on the line of the token behind the value.
pub open spec fn assignment(tokens: Seq<TokenView>, at: int) -> Parsed<ExprView>
    decreases remaining(tokens, at), 14nat,
{
    match binary(tokens, at, Level::Equality) {
        Ok((target, used)) => if check(tokens, at + used, TokenType::Equal) {
            match assignment(tokens, at + used + 1) {
                Ok((value, more)) => match target {
                    ExprView::Variable(name) => Ok(
                        (ExprView::Assign(name, Box::new(value)), used + 1 + more),
                    ),
                    _ => failure(tokens, at + used + 1 + more, INVALID_ASSIGNMENT_TARGET@),
                },
                Err(reason) => Err(reason),
            }
        } else {
            Ok((target, used))
        },
        Err(reason) => Err(reason),
    }
}

/// `expression`: an assignment.
pub open spec fn expression(tokens: Seq<TokenView>, at: int) -> Parsed<ExprView>
    decreases remaining(tokens, at), 15nat,
{
    assignment(tokens, at)
}

/// An expression and the semicolon that ends its statement.
#[verifier::opaque]
pub open spec fn terminated(tokens: Seq<TokenView>, at: int, message: Seq<char>) -> Parsed<ExprView> {
    match expression(tokens, at) {
        Ok((expr, used)) => if check(tokens, at + used, TokenType::Semicolon) {
            Ok((expr, used + 1))
        } else {
            failure(tokens, at + used, message)
        },
        Err(reason) => Err(reason),
    }
}

/// `statement`: a print statement or an expression statement.
#[verifier::opaque]
pub open spec fn statement(tokens: Seq<TokenView>, at: int) -> Parsed<StmtView> {
    if check(tokens, at, TokenType::Print) {
        match terminated(tokens, at + 1, EXPECT_SEMICOLON_AFTER_VALUE@) {
            Ok((expr, used)) => Ok((StmtView::Print(expr), used + 1)),
            Err(reason) => Err(reason),
        }
    } else {
        match terminated(tokens, at, EXPECT_SEMICOLON_AFTER_EXPRESSION@) {
            Ok((expr, used)) => Ok((StmtView::Expression(expr), used)),
            Err(reason) => Err(reason),
        }
    }
}

/// What follows `var`: a name, an initializer if `=` comes next, and a
/// semicolon.
#[verifier::opaque]
pub open spec fn var_declaration(tokens: Seq<TokenView>, at: int) -> Parsed<StmtView> {
    if !check(tokens, at, TokenType::Identifier) {
        failure(tokens, at, EXPECT_VARIABLE_NAME@)
    } else if check(tokens, at + 1, TokenType::Equal) {
        match terminated(tokens, at + 2, EXPECT_SEMICOLON_AFTER_DECLARATION@) {
            Ok((initializer, used)) => Ok((StmtView::Var(tokens[at], Some(initializer)), used + 2)),
            Err(reason) => Err(reason),
        }
    } else if check(tokens, at + 1, TokenType::Semicolon) {
        Ok((StmtView::Var(tokens[at], None), 2))
    } else {
        failure(tokens, at + 1, EXPECT_SEMICOLON_AFTER_DECLARATION@)
    }
}

/// `declaration`: a variable declaration or a statement.
#[verifier::opaque]
pub open spec fn declaration(tokens: Seq<TokenView>, at: int) -> Parsed<StmtView> {
    if check(tokens, at, TokenType::Var) {
        match var_declaration(tokens, at + 1) {
            Ok((stmt, used)) => Ok((stmt, used + 1)),
            Err(reason) => Err(reason),
        }
    } else {
        statement(tokens, at)
    }
}

/// A successful rule spans at least one token, and stays inside the tokens.
pub proof fn primary_spans(tokens: Seq<TokenView>, at: int)
    ensures
        primary(tokens, at) matches Ok((_, used)) ==> used >= 1 && at + used <= tokens.len(),
    decreases remaining(tokens, at), 0nat,
{
    if check(tokens, at, TokenType::LeftParen) {
        expression_spans(tokens, at + 1);
    }
}

/// A successful rule spans at least one token, and stays inside the tokens.
pub proof fn unary_spans(tokens: Seq<TokenView>, at: int)
    ensures
        unary(tokens, at) matches Ok((_, used)) ==> used >= 1 && at + used <= tokens.len(),
    decreases remaining(tokens, at), 1nat,
{
    if check(tokens, at, TokenType::Bang) || check(tokens, at, TokenType::Minus) {
        unary_spans(tokens, at + 1);
    } else {
        primary_spans(tokens, at);
    }
}

/// A successful rule spans at least one token, and stays inside the tokens.
pub proof fn operand_spans(tokens: Seq<TokenView>, at: int, level: Level)
    ensures
        operand(tokens, at, level) matches Ok((_, used)) ==> used >= 1 && at + used <= tokens.len(),
    decreases remaining(tokens, at), 2 + 3 * (3 - rank(level)),
{
    match level {
        Level::Equality => binary_spans(tokens, at, Level::Comparison),
        Level::Comparison => binary_spans(tokens, at, Level::Term),
        Level::Term => binary_spans(tokens, at, Level::Factor),
        Level::Factor => unary_spans(tokens, at),
    }
}

/// What follows an operand stays inside the tokens.
pub proof fn binary_rest_spans(tokens: Seq<TokenView>, at: int, level: Level, left: ExprView)
    requires
        at <= tokens.len(),
    ensures
        binary_rest(tokens, at, level, left) matches Ok((_, used)) ==> at + used <= tokens.len(),
    decreases remaining(tokens, at), 3 + 3 * (3 - rank(level)),
{
    if operator_at(tokens, at, level) {
        operand_spans(tokens, at + 1, level);
        match operand(tokens, at + 1, level) {
            Ok((right, used)) => {
                binary_rest_spans(
                    tokens,
                    at + 1 + used,
                    level,
                    ExprView::Binary(Box::new(left), tokens[at], Box::new(right)),
                );
            },
            Err(_) => {},
        }
    }
}

/// A successful rule spans at least one token, and stays inside the tokens.
pub proof fn binary_spans(tokens: Seq<TokenView>, at: int, level: Level)
    ensures
        binary(tokens, at, level) matches Ok((_, used)) ==> used >= 1 && at + used <= tokens.len(),
    decreases remaining(tokens, at), 4 + 3 * (3 - rank(level)),
{
    operand_spans(tokens, at, level);
    match operand(tokens, at, level) {
        Ok((left, used)) => {
            binary_rest_spans(tokens, at + used, level, left);
        },
        Err(_) => {},
    }
}

/// A successful rule spans at least one token, and stays inside the tokens.
pub proof fn assignment_spans(tokens: Seq<TokenView>, at: int)
    ensures
        assignment(tokens, at) matches Ok((_, used)) ==> used >= 1 && at + used <= tokens.len(),
    decreases remaining(tokens, at), 14nat,
{
    binary_spans(tokens, at, Level::Equality);
    match binary(tokens, at, Level::Equality) {
        Ok((target, used)) => {
            if check(tokens, at + used, TokenType::Equal) {
                assignment_spans(tokens, at + used + 1);
            }
        },
        Err(_) => {},
    }
}

/// A successful rule spans at least one token, and stays inside the tokens.
pub proof fn expression_spans(tokens: Seq<TokenView>, at: int)
    ensures
        expression(tokens, at) matches Ok((_, used)) ==> used >= 1 && at + used <= tokens.len(),
    decreases remaining(tokens, at), 15nat,
{
    assignment_spans(tokens, at);
}

/// A successful rule spans at least one token, and stays inside the tokens.
pub proof fn declaration_spans(tokens: Seq<TokenView>, at: int)
    ensures
        declaration(tokens, at) matches Ok((_, used)) ==> used >= 1 && at + used <= tokens.len(),
{
    reveal(declaration);
    reveal(var_declaration);
    reveal(statement);
    reveal(terminated);
    if check(tokens, at, TokenType::Var) {
        expression_spans(tokens, at + 3);
    } else if check(tokens, at, TokenType::Print) {
        expression_spans(tokens, at + 1);
    } else {
        expression_spans(tokens, at);
    }
}

/// The statements of a program: declarations up to the end of the input.
/// The first failure is that of the whole program.
pub open spec fn program(tokens: Seq<TokenView>, at: int) -> Result<Seq<StmtView>, Failure>
    decreases remaining(tokens, at),
    via program_decreases
{
    if at_end(tokens, at) {
        Ok(Seq::empty())
    } else {
        match declaration(tokens, at) {
            Ok((stmt, used)) => match program(tokens, at + used) {
                Ok(rest) => Ok(seq![stmt] + rest),
                Err(reason) => Err(reason),
            },
            Err(reason) => Err(reason),
        }
    }
}

#[via_fn]
proof fn program_decreases(tokens: Seq<TokenView>, at: int) {
    declaration_spans(tokens, at);
}

/// Where the parser stands behind a program: at the end of the input.
pub open spec fn program_end(tokens: Seq<TokenView>, at: int) -> int
    decreases remaining(tokens, at),
    via program_end_decreases
{
    if at_end(tokens, at) {
        at
    } else {
        match declaration(tokens, at) {
            Ok((_, used)) => program_end(tokens, at + used),
            Err(_) => at,
        }
    }
}

#[via_fn]
proof fn program_end_decreases(tokens: Seq<TokenView>, at: int) {
    declaration_spans(tokens, at);
}

/// Whether a statement may begin with a token of the given kind.
pub open spec fn starts_statement(kind: TokenType) -> bool {
    kind == TokenType::Class || kind == TokenType::Fun || kind == TokenType::Var || kind
        == TokenType::For || kind == TokenType::If || kind == TokenType::While || kind
        == TokenType::Print || kind == TokenType::Return
}

/// The first position from `at` on at which a statement may begin: one
/// behind a semicolon, one at a token that starts a statement, or the end
/// of the input.
pub open spec fn boundary(tokens: Seq<TokenView>, at: int) -> int
    decreases remaining(tokens, at),
{
    if at_end(tokens, at) {
        at
    } else if at >= 1 && tokens[at - 1].kind == TokenType::Semicolon {
        at
    } else if starts_statement(tokens[at].kind) {
        at
    } else {
        boundary(tokens, at + 1)
    }
}

/// Where the parser resumes after a failure at `at`: at the first boundary
/// behind the token at `at`.
pub open spec fn resume_point(tokens: Seq<TokenView>, at: int) -> int {
    if at_end(tokens, at) {
        at
    } else {
        boundary(tokens, at + 1)
    }
}

/// What follows an operand is nothing, or an operator, an operand and what
/// follows that.
pub proof fn binary_rest_unfolds(tokens: Seq<TokenView>, at: int, level: Level, left: ExprView)
    ensures
        binary_rest(tokens, at, level, left) == if operator_at(tokens, at, level) {
            match operand(tokens, at + 1, level) {
                Ok((right, used)) => shifted(
                    binary_rest(
                        tokens,
                        at + 1 + used,
                        level,
                        ExprView::Binary(Box::new(left), tokens[at], Box::new(right)),
                    ),
                    1 + used,
                ),
                Err(reason) => Err(reason),
            }
        } else {
            Ok((left, 0))
        },
{
}

/// The statements of a result with `done` put before them.
pub open spec fn prepended(done: Seq<StmtView>, result: Result<Seq<StmtView>, Failure>) -> Result<
    Seq<StmtView>,
    Failure,
> {
    match result {
        Ok(rest) => Ok(done + rest),
        Err(reason) => Err(reason),
    }
}

/// A program is nothing at the end of the input, and else its first
/// declaration and the program behind it.
pub proof fn program_unfolds(tokens: Seq<TokenView>, at: int, done: Seq<StmtView>)
    ensures
        at_end(tokens, at) ==> prepended(done, program(tokens, at)) == Ok::<Seq<StmtView>, Failure>(done),
        !at_end(tokens, at) ==> prepended(done, program(tokens, at)) == match declaration(tokens, at) {
            Ok((stmt, used)) => prepended(done.push(stmt), program(tokens, at + used)),
            Err(reason) => Err(reason),
        },
{
    if at_end(tokens, at) {
        assert(done + Seq::<StmtView>::empty() =~= done);
    } else {
        match declaration(tokens, at) {
            Ok((stmt, used)) => {
                match program(tokens, at + used) {
                    Ok(rest) => {
                        assert(done + (seq![stmt] + rest) =~= done.push(stmt) + rest);
                    },
                    Err(_) => {},
                }
            },
            Err(_) => {},
        }
    }
}

/// A rule's result with `offset` more tokens counted.
pub open spec fn shifted<T>(result: Parsed<T>, offset: nat) -> Parsed<T> {
    match result {
        Ok((tree, used)) => Ok((tree, used + offset)),
        Err(reason) => Err(reason),
    }
}

/// The parser's state: the tokens and the position of the next one.
pub struct Parser {
    tokens: Vec<Token>,
    current: usize,
}

impl Parser {
    /// The tokens that the parser reads.
    pub closed spec fn tokens(&self) -> Seq<TokenView> {
        self.tokens.deep_view()
    }

    /// The position of the next token.
    pub closed spec fn position(&self) -> int {
        self.current as int
    }

    /// The parser's invariant: the position is inside the tokens or at
    /// their end.
    #[verifier::type_invariant]
    spec fn inside(&self) -> bool {
        self.current <= self.tokens@.len()
    }

    /// Whether a method that returned `result` did to the parser what a rule
    /// with the outcome `expected` says: on success the result is the tree
    /// and the position is behind its tokens; on failure the result is the
    /// diagnostic and the position is where the rule stopped.
    pub open spec fn follows<T: View>(
        before: Parser,
        after: Parser,
        result: LoxResult<T>,
        expected: Parsed<T::V>,
    ) -> bool {
        &&& after.tokens() == before.tokens()
        &&& match expected {
            Ok((tree, used)) => {
                &&& result matches Ok(value)
                &&& value@ == tree
                &&& after.position() == before.position() + used
            },
            Err(reason) => {
                &&& result matches Err(error)
                &&& error@ == reason.error
                &&& after.position() == reason.at
            },
        }
    }

    /// A parser at the first of `tokens`.
    pub fn new(tokens: Vec<Token>) -> (parser: Self)
        ensures
            parser.tokens() == tokens.deep_view(),
            parser.position() == 0,
    {
        Parser { tokens, current: 0 }
    }

    /// Parses declarations up to the end of the input and returns them in
    /// order, or fails with the first syntax error.
    pub fn parse(&mut self) -> (result: LoxResult<Vec<Stmt>>)
        ensures
            final(self).tokens() == old(self).tokens(),
            match program(old(self).tokens(), old(self).position()) {
                Ok(statements) => {
                    &&& result matches Ok(parsed)
                    &&& parsed.deep_view() == statements
                    &&& final(self).position() == program_end(old(self).tokens(), old(self).position())
                    &&& at_end(final(self).tokens(), final(self).position())
                },
                Err(reason) => {
                    &&& result matches Err(error)
                    &&& error@ == reason.error
                    &&& final(self).position() == reason.at
                },
            },
    {
        let mut statements: Vec<Stmt> = vec![];
        let ghost first = self.position();
        proof {
            match program(self.tokens(), first) {
                Ok(all) => assert(Seq::<StmtView>::empty() + all =~= all),
                Err(_) => {},
            }
        }
        while !self.is_at_end()
            invariant
                self.tokens() == old(self).tokens(),
                first == old(self).position(),
                program_end(self.tokens(), first) == program_end(self.tokens(), self.position()),
                program(self.tokens(), first) == prepended(
                    statements.deep_view(),
                    program(self.tokens(), self.position()),
                ),
            decreases remaining(self.tokens(), self.position()),
        {
            proof {
                declaration_spans(self.tokens(), self.position());
                program_unfolds(self.tokens(), self.position(), statements.deep_view());
            }
            let ghost done = statements.deep_view();
            let statement = self.declaration()?;
            statements.push(statement);
            proof {
                assert(statements.deep_view() =~= done.push(statement@));
            }
        }
        proof {
            program_unfolds(self.tokens(), self.position(), statements.deep_view());
        }
        Ok(statements)
    }

    fn declaration(&mut self) -> (result: LoxResult<Stmt>)
        ensures
            Self::follows(*old(self), *final(self), result, declaration(old(self).tokens(), old(self).position())),
    {
        reveal(declaration);
        let ghost tokens = self.tokens();
        let ghost at = self.position();
        if self.match_types(vec![TokenType::Var]) {
            assert(check(tokens, at, TokenType::Var));
            return self.var_declaration();
        }
        assert(!check(tokens, at, TokenType::Var));
        self.statement()
    }

    #[verifier::rlimit(50)]
    fn var_declaration(&mut self) -> (result: LoxResult<Stmt>)
        ensures
            Self::follows(
                *old(self),
                *final(self),
                result,
                var_declaration(old(self).tokens(), old(self).position()),
            ),
    {
        reveal(var_declaration);
        reveal(terminated);
        let ghost tokens = self.tokens();
        let ghost at = self.position();
        let name = self.consume(TokenType::Identifier, EXPECT_VARIABLE_NAME)?;
        let mut initializer = None;

        if self.match_types(vec![TokenType::Equal]) {
            assert(check(tokens, at + 1, TokenType::Equal));
            initializer = Some(Box::new(self.expression()?));
        } else {
            assert(!check(tokens, at + 1, TokenType::Equal));
        }
        self.consume(TokenType::Semicolon, EXPECT_SEMICOLON_AFTER_DECLARATION)?;
        Ok(Stmt::Var(name, initializer))
    }

    fn statement(&mut self) -> (result: LoxResult<Stmt>)
        ensures
            Self::follows(*old(self), *final(self), result, statement(old(self).tokens(), old(self).position())),
    {
        reveal(statement);
        let ghost tokens = self.tokens();
        let ghost at = self.position();
        if self.match_types(vec![TokenType::Print]) {
            assert(check(tokens, at, TokenType::Print));
            return self.print_statement();
        }
        assert(!check(tokens, at, TokenType::Print));
        return self.expression_statement();
    }

    fn print_statement(&mut self) -> (result: LoxResult<Stmt>)
        ensures
            Self::follows(
                *old(self),
                *final(self),
                result,
                match terminated(old(self).tokens(), old(self).position(), EXPECT_SEMICOLON_AFTER_VALUE@) {
                    Ok((expr, used)) => Ok((StmtView::Print(expr), used)),
                    Err(reason) => Err(reason),
                },
            ),
    {
        reveal(terminated);
        let value = self.expression()?;
        self.consume(TokenType::Semicolon, EXPECT_SEMICOLON_AFTER_VALUE)?;
        Ok(Stmt::Print(Box::new(value)))
    }

    fn expression_statement(&mut self) -> (result: LoxResult<Stmt>)
        ensures
            Self::follows(
                *old(self),
                *final(self),
                result,
                match terminated(old(self).tokens(), old(self).position(), EXPECT_SEMICOLON_AFTER_EXPRESSION@) {
                    Ok((expr, used)) => Ok((StmtView::Expression(expr), used)),
                    Err(reason) => Err(reason),
                },
            ),
    {
        reveal(terminated);
        let value = self.expression()?;
        self.consume(TokenType::Semicolon, EXPECT_SEMICOLON_AFTER_EXPRESSION)?;
        Ok(Stmt::Expression(Box::new(value)))
    }

    fn expression(&mut self) -> (result: LoxResult<Expr>)
        ensures
            Self::follows(*old(self), *final(self), result, expression(old(self).tokens(), old(self).position())),
        decreases remaining(old(self).tokens(), old(self).position()), 15nat,
    {
            self.assignment()
    }

    fn assignment(&mut self) -> (result: LoxResult<Expr>)
        ensures
            Self::follows(*old(self), *final(self), result, assignment(old(self).tokens(), old(self).position())),
        decreases remaining(old(self).tokens(), old(self).position()), 14nat,
    {
        let expr = self.equality()?;

        if self.match_types(vec![TokenType::Equal]) {
            let value = self.assignment()?;

            if let Expr::Variable(token) = expr {
                return Ok(Expr::Assign(token, Box::new(value)));
            }
            return Err(Error::ParseError(self.line_here(), INVALID_ASSIGNMENT_TARGET.to_owned()));
        }
        Ok(expr)
    }

    fn equality(&mut self) -> (result: LoxResult<Expr>)
        ensures
            Self::follows(
                *old(self),
                *final(self),
                result,
                binary(old(self).tokens(), old(self).position(), Level::Equality),
            ),
        decreases remaining(old(self).tokens(), old(self).position()), 13nat,
    {
        let mut expr = self.comparison()?;

        while self.match_types(vec![TokenType::BangEqual, TokenType::EqualEqual])
            invariant
                self.tokens() == old(self).tokens(),
                old(self).current <= self.current,
                binary(old(self).tokens(), old(self).position(), Level::Equality) == shifted(
                    binary_rest(self.tokens(), self.position(), Level::Equality, expr@),
                    (self.current - old(self).current) as nat,
                ),
            decreases remaining(self.tokens(), self.position()),
        {
            proof {
                binary_rest_unfolds(self.tokens(), self.position() - 1, Level::Equality, expr@);
            }
            let operator = self.previous().clone();
            let right = self.comparison()?;
            expr = Expr::Binary(Box::new(expr), operator, Box::new(right));
        }

        Ok(expr)
    }

    fn comparison(&mut self) -> (result: LoxResult<Expr>)
        ensures
            Self::follows(
                *old(self),
                *final(self),
                result,
                binary(old(self).tokens(), old(self).position(), Level::Comparison),
            ),
        decreases remaining(old(self).tokens(), old(self).position()), 10nat,
    {
        let mut expr = self.term()?;

        while self.match_types(
            vec![TokenType::Greater, TokenType::GreaterEqual, TokenType::Less, TokenType::LessEqual],
        )
            invariant
                self.tokens() == old(self).tokens(),
                old(self).current <= self.current,
                binary(old(self).tokens(), old(self).position(), Level::Comparison) == shifted(
                    binary_rest(self.tokens(), self.position(), Level::Comparison, expr@),
                    (self.current - old(self).current) as nat,
                ),
            decreases remaining(self.tokens(), self.position()),
        {
            proof {
                binary_rest_unfolds(self.tokens(), self.position() - 1, Level::Comparison, expr@);
            }
            let operator = self.previous().clone();
            let right = self.term()?;
            expr = Expr::Binary(Box::new(expr), operator, Box::new(right));
        }

        Ok(expr)
    }

    fn term(&mut self) -> (result: LoxResult<Expr>)
        ensures
            Self::follows(
                *old(self),
                *final(self),
                result,
                binary(old(self).tokens(), old(self).position(), Level::Term),
            ),
        decreases remaining(old(self).tokens(), old(self).position()), 7nat,
    {
        let mut expr = self.factor()?;

        while self.match_types(vec![TokenType::Minus, TokenType::Plus])
            invariant
                self.tokens() == old(self).tokens(),
                old(self).current <= self.current,
                binary(old(self).tokens(), old(self).position(), Level::Term) == shifted(
                    binary_rest(self.tokens(), self.position(), Level::Term, expr@),
                    (self.current - old(self).current) as nat,
                ),
            decreases remaining(self.tokens(), self.position()),
        {
            proof {
                binary_rest_unfolds(self.tokens(), self.position() - 1, Level::Term, expr@);
            }
            let operator = self.previous().clone();
            let right = self.factor()?;
            expr = Expr::Binary(Box::new(expr), operator, Box::new(right));
        }

        Ok(expr)
    }

    fn factor(&mut self) -> (result: LoxResult<Expr>)
        ensures
            Self::follows(
                *old(self),
                *final(self),
                result,
                binary(old(self).tokens(), old(self).position(), Level::Factor),
            ),
        decreases remaining(old(self).tokens(), old(self).position()), 4nat,
    {
        let mut expr = self.unary()?;

        while self.match_types(vec![TokenType::Slash, TokenType::Star])
            invariant
                self.tokens() == old(self).tokens(),
                old(self).current <= self.current,
                binary(old(self).tokens(), old(self).position(), Level::Factor) == shifted(
                    binary_rest(self.tokens(), self.position(), Level::Factor, expr@),
                    (self.current - old(self).current) as nat,
                ),
            decreases remaining(self.tokens(), self.position()),
        {
            proof {
                binary_rest_unfolds(self.tokens(), self.position() - 1, Level::Factor, expr@);
            }
            let operator = self.previous().clone();
            let right = self.unary()?;
            expr = Expr::Binary(Box::new(expr), operator, Box::new(right));
        }

        Ok(expr)
    }

    fn unary(&mut self) -> (result: LoxResult<Expr>)
        ensures
            Self::follows(*old(self), *final(self), result, unary(old(self).tokens(), old(self).position())),
        decreases remaining(old(self).tokens(), old(self).position()), 1nat,
    {
        if self.match_types(vec![TokenType::Bang, TokenType::Minus]) {
            let operator = self.previous().clone();
            let right = self.unary()?;
            return Ok(Expr::Unary(operator, Box::new(right)));
        }
        self.primary()
    }

    #[verifier::rlimit(50)]
    fn primary(&mut self) -> (result: LoxResult<Expr>)
        ensures
            Self::follows(*old(self), *final(self), result, primary(old(self).tokens(), old(self).position())),
        decreases remaining(old(self).tokens(), old(self).position()), 0nat,
    {
        let ghost tokens = self.tokens();
        let ghost at = self.position();
        if self.match_types(vec![TokenType::False]) {
            assert(check(tokens, at, TokenType::False));
            return Ok(Expr::Literal(LiteralType::LBoolean(false)));
        }
        assert(!check(tokens, at, TokenType::False));
        if self.match_types(vec![TokenType::True]) {
            assert(check(tokens, at, TokenType::True));
            return Ok(Expr::Literal(LiteralType::LBoolean(true)));
        }
        assert(!check(tokens, at, TokenType::True));
        if self.match_types(vec![TokenType::Nil]) {
            assert(check(tokens, at, TokenType::Nil));
            return Ok(Expr::Literal(LiteralType::LNil));
        }
        assert(!check(tokens, at, TokenType::Nil));
        if self.match_types(vec![TokenType::Number, TokenType::StringLiteral]) {
            assert(check(tokens, at, TokenType::Number) || check(tokens, at, TokenType::StringLiteral));
            return match &self.previous().literal {
                Some(value) => Ok(Expr::Literal(value.clone())),
                None => Err(Error::ParseError(self.previous().line, EXPECT_EXPRESSION.to_owned())),
            };
        }
        assert(!check(tokens, at, TokenType::Number) && !check(tokens, at, TokenType::StringLiteral));
        if self.match_types(vec![TokenType::Identifier]) {
            assert(check(tokens, at, TokenType::Identifier));
            return Ok(Expr::Variable(self.previous().clone()));
        }
        assert(!check(tokens, at, TokenType::Identifier));
        if self.match_types(vec![TokenType::LeftParen]) {
            assert(check(tokens, at, TokenType::LeftParen));
            let expr = self.expression()?;
            self.consume(TokenType::RightParen, EXPECT_RIGHT_PAREN)?;
            return Ok(Expr::Grouping(Box::new(expr)));
        }
        assert(!check(tokens, at, TokenType::LeftParen));
        Err(Error::ParseError(self.line_here(), EXPECT_EXPRESSION.to_owned()))
    }

    /// Takes the next token if it is of the given kind, and fails with
    /// `message` otherwise.
    fn consume(&mut self, token_type: TokenType, message: &str) -> (result: LoxResult<Token>)
        ensures
            final(self).tokens == old(self).tokens,
            check(old(self).tokens(), old(self).position(), token_type) ==> {
                &&& result matches Ok(token)
                &&& token@ == old(self).tokens()[old(self).position()]
                &&& final(self).position() == old(self).position() + 1
            },
            !check(old(self).tokens(), old(self).position(), token_type) ==> {
                &&& result matches Err(error)
                &&& error@ == syntax(line_at(old(self).tokens(), old(self).position()), message@)
                &&& final(self).position() == old(self).position()
            },
    {
        if self.check(token_type) {
            self.advance();
            return Ok(self.previous().clone());
        }
        Err(Error::ParseError(self.line_here(), message.to_owned()))
    }

    /// Takes the next token if its kind is one of `types`.
    fn match_types(&mut self, types: Vec<TokenType>) -> (matched: bool)
        ensures
            final(self).tokens == old(self).tokens,
            matched == (!at_end(old(self).tokens(), old(self).position()) && types@.contains(
                old(self).tokens()[old(self).position()].kind,
            )),
            final(self).position() == old(self).position() + if matched {
                1int
            } else {
                0int
            },
    {
        let mut index: usize = 0;
        while index < types.len()
            invariant
                *self == *old(self),
                index <= types@.len(),
                forall|i: int| 0 <= i < index ==> !check(self.tokens(), self.position(), #[trigger] types@[i]),
            decreases types@.len() - index,
        {
            if self.check(types[index]) {
                self.advance();
                return true;
            }
            index += 1;
        }
        false
    }

    fn check(&self, token_type: TokenType) -> (same: bool)
        ensures
            same == check(self.tokens(), self.position(), token_type),
    {
        if self.is_at_end() {
            return false;
        }
        self.peek().token_type == token_type
    }

    fn is_at_end(&self) -> (ended: bool)
        ensures
            ended == at_end(self.tokens(), self.position()),
            !ended ==> self.position() < self.tokens().len() <= usize::MAX,
    {
        self.current >= self.tokens.len() || self.tokens[self.current].token_type == TokenType::EOF
    }

    fn peek(&self) -> (token: &Token)
        requires
            self.position() < self.tokens().len(),
        ensures
            token@ == self.tokens()[self.position()],
    {
        &self.tokens[self.current]
    }

    /// The line on which an error at the next token is reported.
    fn line_here(&self) -> (line: usize)
        ensures
            line == line_at(self.tokens(), self.position()),
    {
        if self.current < self.tokens.len() {
            self.tokens[self.current].line
        } else if self.tokens.len() > 0 {
            self.tokens[self.tokens.len() - 1].line
        } else {
            1
        }
    }

    fn advance(&mut self)
        ensures
            final(self).tokens == old(self).tokens,
            final(self).position() == if at_end(old(self).tokens(), old(self).position()) {
                old(self).position()
            } else {
                old(self).position() + 1
            },
    {
        if !self.is_at_end() {
            self.current += 1;
        }
    }

    fn previous(&self) -> (token: &Token)
        requires
            1 <= self.position(),
        ensures
            token@ == self.tokens()[self.position() - 1],
    {
        proof {
            use_type_invariant(self);
        }
        &self.tokens[self.current - 1]
    }

    /// Skips from a failure to where the next statement may begin: drops the
    /// next token, and those behind it up to a boundary.
    pub fn synchronize(&mut self)
        ensures
            final(self).tokens() == old(self).tokens(),
            final(self).position() == resume_point(old(self).tokens(), old(self).position()),
    {
        self.advance();

        while !self.is_at_end()
            invariant
                self.tokens() == old(self).tokens(),
                if at_end(old(self).tokens(), old(self).position()) {
                    self.current == old(self).current
                } else {
                    1 <= self.current && boundary(self.tokens(), self.position()) == resume_point(
                        old(self).tokens(),
                        old(self).position(),
                    )
                },
            decreases remaining(self.tokens(), self.position()),
        {
            if self.previous().token_type == TokenType::Semicolon {
                return ;
            }
            match self.peek().token_type {
                TokenType::Class
                | TokenType::Fun
                | TokenType::Var
                | TokenType::For
                | TokenType::If
                | TokenType::While
                | TokenType::Print
                | TokenType::Return => return ,
                _ => (),
            }

            self.advance();
        }
    }
}

} // verus!
