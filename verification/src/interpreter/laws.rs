//! What holds of every evaluation, whatever the numbers answer.

use crate::ast::{ExprView, StmtView};
use crate::environment::{read, undefined_variable, Bindings};
use crate::errors::{runtime, Diagnostic};
use crate::interpreter::{
    assigns,
    binary_applied,
    declares,
    evaluates,
    executes,
    negates_operand,
    operated,
    operates,
    operates_right,
    through,
    through_both,
    truthy,
    Executed,
    State,
    Valued,
};
use crate::numbers::{computes, Numbers};
use crate::scanner::token::{without_trailing_zero, Literal, TokenView};
use crate::scanner::token_type::TokenType;
use vstd::prelude::*;

verus! {

/// Whether a token kind is one of the four arithmetic operators.
pub open spec fn is_arithmetic(kind: TokenType) -> bool {
    kind == TokenType::Plus || kind == TokenType::Minus || kind == TokenType::Star || kind
        == TokenType::Slash
}

/// Whether `value` is what the arithmetic operation `operator` on the
/// operands `left` and `right`, evaluated in this order from `before`, may
/// give: both operands give numbers, and `value` is what `numbers` answers
/// for the operator on them.
pub open spec fn combines<N: Numbers>(
    numbers: &N,
    left: ExprView,
    operator: TokenType,
    right: ExprView,
    before: Bindings,
    value: u64,
    after: Bindings,
) -> bool {
    exists|a: u64, middle: Bindings, b: u64|
        #![trigger through_both(Ok(Literal::Number(a)), middle), through(Ok(Literal::Number(b)))]
        {
            &&& through_both(Ok(Literal::Number(a)), middle)
            &&& through(Ok(Literal::Number(b)))
            &&& evaluates(numbers, left, before, Ok(Literal::Number(a)), middle)
            &&& evaluates(numbers, right, middle, Ok(Literal::Number(b)), after)
            &&& computes(numbers, operator, a, b, value)
        }
}

/// Arithmetic is evaluated as it is nested: an arithmetic operation that
/// gives a number evaluated its left operand, then its right one, and
/// applied its operator to their values.
pub proof fn arithmetic_follows_nesting<N: Numbers>(
    numbers: &N,
    left: ExprView,
    operator: TokenView,
    right: ExprView,
    before: Bindings,
    value: u64,
    after: Bindings,
)
    requires
        is_arithmetic(operator.kind),
        evaluates(
            numbers,
            ExprView::Binary(Box::new(left), operator, Box::new(right)),
            before,
            Ok(Literal::Number(value)),
            after,
        ),
    ensures
        combines(numbers, left, operator.kind, right, before, value, after),
{
    let tree = ExprView::Binary(Box::new(left), operator, Box::new(right));
    let outcome: Valued = Ok(Literal::Number(value));
    assert(operates(numbers, tree, before, outcome, after));
    let (first, middle) = choose|first: Valued, middle: Bindings|
        #![trigger through_both(first, middle)]
        through_both(first, middle) && evaluates(numbers, *tree->Binary_0, before, first, middle) && match first {
            Ok(value) => operates_right(numbers, tree, value, middle, outcome, after),
            Err(error) => outcome == Err::<Literal, Diagnostic>(error) && after == middle,
        };
    let a = first->Ok_0;
    assert(operates_right(numbers, tree, a, middle, outcome, after));
    let second = choose|second: Valued|
        #![trigger through(second)]
        through(second) && evaluates(numbers, *tree->Binary_2, middle, second, after) && binary_applied(
            numbers,
            tree->Binary_1,
            a,
            second,
            outcome,
        );
    let b = second->Ok_0;
    assert(operated(numbers, operator.kind, a, b, Ok(Literal::Number(value))));
    assert(through_both(Ok(Literal::Number(a->Number_0)), middle));
    assert(through(Ok(Literal::Number(b->Number_0))));
}

/// `!` gives the opposite of the truthiness of its operand: `true` for
/// `nil` and `false`, and `false` for every other value, zero and the empty
/// string among them.
pub proof fn not_inverts_truthiness<N: Numbers>(
    numbers: &N,
    operator: TokenView,
    operand: Literal,
    before: Bindings,
    outcome: Valued,
    after: Bindings,
)
    requires
        operator.kind == TokenType::Bang,
        evaluates(
            numbers,
            ExprView::Unary(operator, Box::new(ExprView::Literal(operand))),
            before,
            outcome,
            after,
        ),
    ensures
        outcome == Ok::<Literal, Diagnostic>(Literal::Boolean(!truthy(operand))),
        after == before,
        operand == Literal::Nil || operand == Literal::Boolean(false) <==> outcome == Ok::<
            Literal,
            Diagnostic,
        >(Literal::Boolean(true)),
{
    let tree = ExprView::Unary(operator, Box::new(ExprView::Literal(operand)));
    assert(negates_operand(numbers, tree, before, outcome, after));
}

/// A variable that is not defined cannot be read: the evaluation fails with
/// the undefined-variable error on the line of the name, and defines
/// nothing.
pub proof fn undefined_variable_cannot_be_read<N: Numbers>(
    numbers: &N,
    name: TokenView,
    before: Bindings,
    outcome: Valued,
    after: Bindings,
)
    requires
        !before.contains_key(name.lexeme),
        evaluates(numbers, ExprView::Variable(name), before, outcome, after),
    ensures
        outcome == Err::<Literal, Diagnostic>(runtime(name.line, undefined_variable(name.lexeme))),
        after == before,
{
}

/// A variable that is not defined cannot be assigned: the evaluation fails
/// with the error that reading it fails with, and defines nothing.
pub proof fn undefined_variable_cannot_be_assigned<N: Numbers>(
    numbers: &N,
    name: TokenView,
    value: Literal,
    before: Bindings,
    outcome: Valued,
    after: Bindings,
)
    requires
        !before.contains_key(name.lexeme),
        evaluates(
            numbers,
            ExprView::Assign(name, Box::new(ExprView::Literal(value))),
            before,
            outcome,
            after,
        ),
    ensures
        outcome == Err::<Literal, Diagnostic>(runtime(name.line, undefined_variable(name.lexeme))),
        evaluates(numbers, ExprView::Variable(name), before, outcome, after),
        after == before,
{
    let tree = ExprView::Assign(name, Box::new(ExprView::Literal(value)));
    assert(assigns(numbers, tree, before, outcome, after));
}

/// A declared variable holds the value of its initializer: reading it
/// after the declaration gives that value.
pub proof fn declared_variable_reads_back<N: Numbers>(
    numbers: &N,
    name: TokenView,
    value: Literal,
    before: State,
    declared: Executed,
    middle: State,
    reader: TokenView,
    outcome: Valued,
    after: Bindings,
)
    requires
        reader.lexeme == name.lexeme,
        executes(numbers, StmtView::Var(name, Some(ExprView::Literal(value))), before, declared, middle),
        evaluates(numbers, ExprView::Variable(reader), middle.variables, outcome, after),
    ensures
        declared == Ok::<(), Diagnostic>(()),
        outcome == Ok::<Literal, Diagnostic>(value),
        after == middle.variables,
        middle.output == before.output,
{
    assert(declares(numbers, name, ExprView::Literal(value), before, declared, middle));
}

/// An assignment to a defined variable gives the variable the value and is
/// that value; reading the variable after it gives the value.
pub proof fn assigned_variable_reads_back<N: Numbers>(
    numbers: &N,
    name: TokenView,
    value: Literal,
    before: Bindings,
    assigned: Valued,
    middle: Bindings,
    reader: TokenView,
    outcome: Valued,
    after: Bindings,
)
    requires
        before.contains_key(name.lexeme),
        reader.lexeme == name.lexeme,
        evaluates(
            numbers,
            ExprView::Assign(name, Box::new(ExprView::Literal(value))),
            before,
            assigned,
            middle,
        ),
        evaluates(numbers, ExprView::Variable(reader), middle, outcome, after),
    ensures
        assigned == Ok::<Literal, Diagnostic>(value),
        middle == before.insert(name.lexeme, value),
        outcome == Ok::<Literal, Diagnostic>(value),
        after == middle,
{
    let tree = ExprView::Assign(name, Box::new(ExprView::Literal(value)));
    assert(assigns(numbers, tree, before, assigned, middle));
}

/// A decimal text that ends in `.0` is written without these two
/// characters.
pub proof fn trailing_zero_is_stripped(whole: Seq<char>)
    ensures
        without_trailing_zero(whole + ".0"@) == whole,
{
    reveal_strlit(".0");
    let text = whole + ".0"@;
    assert(text[text.len() - 2] == '.');
    assert(text[text.len() - 1] == '0');
    assert(text.subrange(0, text.len() - 2) =~= whole);
}

} // verus!
