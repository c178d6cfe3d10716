//! The interpreter: walks the syntax tree and evaluates it as it goes.
//!
//! What a number operation yields is for an implementation of
//! [`Numbers`] to say, so the meaning of the language is stated as
//! relations: [`evaluates`], [`executes`] and [`interprets`] hold of every
//! outcome that the answers of `numbers` allow, and the methods of
//! [`Interpreter`] are proved to produce only such outcomes.

pub mod laws;

use crate::ast::{size, Expr, ExprView, Stmt, StmtView};
use crate::environment::{read, written, Bindings, Environment, LoxValue};
use crate::errors::{runtime, Diagnostic, Error, LoxResult};
use crate::numbers::{negates, Numbers};
use crate::scanner::token::{
    added,
    compared,
    computed,
    stringified,
    Literal,
    LiteralType,
    Outcome,
    Token,
    TokenView,
};
use crate::scanner::token_type::TokenType;
use vstd::prelude::*;

verus! {

/// Message of the type error for a negated operand that is no number.
pub const OPERAND_NOT_NUMBER: &'static str = "Could not perform operation (operand is not number)";

/// Message of the runtime error for a binary node whose token is no binary
/// operator.
pub const INVALID_OPERATOR: &'static str = "invalid operator";

/// What evaluating an expression gives: a value or a runtime error.
pub type Valued = Result<Literal, Diagnostic>;

/// What executing a statement gives: nothing or a runtime error.
pub type Executed = Result<(), Diagnostic>;

/// What a run can observe and change: the variables and the lines printed.
pub struct State {
    pub variables: Bindings,
    pub output: Seq<Seq<char>>,
}

/// Whether a value counts as true: everything but `nil` and `false` does.
pub open spec fn truthy(value: Literal) -> bool {
    match value {
        Literal::Nil => false,
        Literal::Boolean(truth) => truth,
        _ => true,
    }
}

/// An outcome of an operation, as the outcome of the expression on `line`.
pub open spec fn tagged(line: usize, outcome: Outcome) -> Valued {
    match outcome {
        Ok(value) => Ok(value),
        Err(message) => Err(runtime(line, message)),
    }
}

/// Whether `outcome` is a runtime error on `line` or a value, and which
/// value or message.
pub open spec fn untagged(line: usize, outcome: Valued) -> (bool, Outcome) {
    match outcome {
        Ok(value) => (true, Ok(value)),
        Err(error) => (error == runtime(line, error.message), Err(error.message)),
    }
}

/// `outcome` is a possible outcome of the binary `operator` on two values.
pub open spec fn operated<N: Numbers>(
    numbers: &N,
    operator: TokenType,
    left: Literal,
    right: Literal,
    outcome: Outcome,
) -> bool {
    match operator {
        TokenType::Greater => compared(numbers, operator, left, right, outcome),
        TokenType::GreaterEqual => compared(numbers, operator, left, right, outcome),
        TokenType::Less => compared(numbers, operator, left, right, outcome),
        TokenType::LessEqual => compared(numbers, operator, left, right, outcome),
        TokenType::EqualEqual => compared(numbers, operator, left, right, outcome),
        TokenType::BangEqual => compared(numbers, operator, left, right, outcome),
        TokenType::Minus => computed(numbers, operator, left, right, outcome),
        TokenType::Slash => computed(numbers, operator, left, right, outcome),
        TokenType::Star => computed(numbers, operator, left, right, outcome),
        TokenType::Plus => added(numbers, left, right, outcome),
        _ => outcome == Err::<Literal, Seq<char>>(INVALID_OPERATOR@),
    }
}

/// `outcome` is a possible outcome of the unary `operator` on a value: the
/// negation that `numbers` answers for a number under `-`, a type error for
/// anything else under `-`, and under `!` the opposite of the value's
/// truthiness.  Any other token gives `nil`.
pub open spec fn negated<N: Numbers>(numbers: &N, operator: TokenType, operand: Literal, outcome: Outcome) -> bool {
    match operator {
        TokenType::Minus => match operand {
            Literal::Number(bits) => outcome matches Ok(Literal::Number(value)) && negates(numbers, bits, value),
            _ => outcome == Err::<Literal, Seq<char>>(OPERAND_NOT_NUMBER@),
        },
        TokenType::Bang => outcome == Ok::<Literal, Seq<char>>(Literal::Boolean(!truthy(operand))),
        _ => outcome == Ok::<Literal, Seq<char>>(Literal::Nil),
    }
}

/// Marks `outcome` as the outcome of a part, through which the whole is
/// explained.
pub open spec fn through(outcome: Valued) -> bool {
    true
}

/// Marks `outcome` and `middle` as the outcome of a part and the variables
/// after it, through which the whole is explained.
pub open spec fn through_both(outcome: Valued, middle: Bindings) -> bool {
    true
}

/// Marks `middle` as the state between two parts of a run.
pub open spec fn through_state(middle: State) -> bool {
    true
}

/// `outcome` and `after` are a possible outcome of evaluating `expr` with
/// the variables `before`, and the variables after it.
///
/// A literal is its value and a grouping that of its inside.  A variable is
/// its value, or an error where it is not defined.  An assignment evaluates
/// its value, gives it to a variable that is defined, and is that value.  A
/// unary or binary operation evaluates its operands from left to right,
/// stops at the first error, and then applies its operator.
pub open spec fn evaluates<N: Numbers>(
    numbers: &N,
    expr: ExprView,
    before: Bindings,
    outcome: Valued,
    after: Bindings,
) -> bool
    decreases expr, 2nat,
{
    match expr {
        ExprView::Literal(value) => outcome == Ok::<Literal, Diagnostic>(value) && after == before,
        ExprView::Grouping(inner) => evaluates(numbers, *inner, before, outcome, after),
        ExprView::Variable(name) => outcome == tagged(name.line, read(before, name.lexeme)) && after
            == before,
        ExprView::Assign(name, value) => assigns(numbers, expr, before, outcome, after),
        ExprView::Unary(operator, operand) => negates_operand(numbers, expr, before, outcome, after),
        ExprView::Binary(left, operator, right) => operates(numbers, expr, before, outcome, after),
    }
}

/// [`evaluates`], for an assignment.
pub open spec fn assigns<N: Numbers>(
    numbers: &N,
    expr: ExprView,
    before: Bindings,
    outcome: Valued,
    after: Bindings,
) -> bool
    decreases expr, 1nat,
{
    &&& expr is Assign
    &&& exists|value: Valued, middle: Bindings|
        #![trigger through_both(value, middle)]
        {
            &&& through_both(value, middle)
            &&& evaluates(numbers, *expr->Assign_1, before, value, middle)
            &&& stored(expr->Assign_0, value, middle, outcome, after)
        }
}

/// What an assignment makes of the outcome of its value.
pub open spec fn stored(name: TokenView, value: Valued, middle: Bindings, outcome: Valued, after: Bindings) -> bool {
    match value {
        Ok(value) => outcome == tagged(name.line, written(middle, name.lexeme, value).0) && after
            == written(middle, name.lexeme, value).1,
        Err(error) => outcome == Err::<Literal, Diagnostic>(error) && after == middle,
    }
}

/// [`evaluates`], for a unary operation.
pub open spec fn negates_operand<N: Numbers>(
    numbers: &N,
    expr: ExprView,
    before: Bindings,
    outcome: Valued,
    after: Bindings,
) -> bool
    decreases expr, 1nat,
{
    &&& expr is Unary
    &&& exists|operand: Valued|
        #![trigger through(operand)]
        {
            &&& through(operand)
            &&& evaluates(numbers, *expr->Unary_1, before, operand, after)
            &&& unary_applied(numbers, expr->Unary_0, operand, outcome)
        }
}

/// What a unary operation makes of the outcome of its operand.
pub open spec fn unary_applied<N: Numbers>(
    numbers: &N,
    operator: TokenView,
    operand: Valued,
    outcome: Valued,
) -> bool {
    match operand {
        Ok(value) => untagged(operator.line, outcome).0 && negated(
            numbers,
            operator.kind,
            value,
            untagged(operator.line, outcome).1,
        ),
        Err(error) => outcome == Err::<Literal, Diagnostic>(error),
    }
}

/// [`evaluates`], for a binary operation.
pub open spec fn operates<N: Numbers>(
    numbers: &N,
    expr: ExprView,
    before: Bindings,
    outcome: Valued,
    after: Bindings,
) -> bool
    decreases expr, 1nat,
{
    &&& expr is Binary
    &&& exists|left: Valued, middle: Bindings|
        #![trigger through_both(left, middle)]
        {
            &&& through_both(left, middle)
            &&& evaluates(numbers, *expr->Binary_0, before, left, middle)
            &&& match left {
                Ok(value) => operates_right(numbers, expr, value, middle, outcome, after),
                Err(error) => outcome == Err::<Literal, Diagnostic>(error) && after == middle,
            }
        }
}

/// [`evaluates`], for a binary operation whose left operand is `left`.
pub open spec fn operates_right<N: Numbers>(
    numbers: &N,
    expr: ExprView,
    left: Literal,
    middle: Bindings,
    outcome: Valued,
    after: Bindings,
) -> bool
    decreases expr, 0nat,
{
    &&& expr is Binary
    &&& exists|right: Valued|
        #![trigger through(right)]
        {
            &&& through(right)
            &&& evaluates(numbers, *expr->Binary_2, middle, right, after)
            &&& binary_applied(numbers, expr->Binary_1, left, right, outcome)
        }
}

/// What a binary operation makes of its left operand and the outcome of its
/// right one.
pub open spec fn binary_applied<N: Numbers>(
    numbers: &N,
    operator: TokenView,
    left: Literal,
    right: Valued,
    outcome: Valued,
) -> bool {
    match right {
        Ok(value) => untagged(operator.line, outcome).0 && operated(
            numbers,
            operator.kind,
            left,
            value,
            untagged(operator.line, outcome).1,
        ),
        Err(error) => outcome == Err::<Literal, Diagnostic>(error),
    }
}

/// The outcome of a statement that evaluated an expression for its effects.
pub open spec fn discarded(value: Valued) -> Executed {
    match value {
        Ok(_) => Ok(()),
        Err(error) => Err(error),
    }
}

/// `outcome` and `after` are a possible outcome of an expression statement.
pub open spec fn executes_expression<N: Numbers>(
    numbers: &N,
    expr: ExprView,
    before: State,
    outcome: Executed,
    after: State,
) -> bool {
    &&& after.output == before.output
    &&& exists|value: Valued|
        #![trigger through(value)]
        {
            &&& through(value)
            &&& evaluates(numbers, expr, before.variables, value, after.variables)
            &&& outcome == discarded(value)
        }
}

/// What `print` makes of the outcome of its expression: a value is written
/// as one more line, the text that [`stringified`] allows.
pub open spec fn printed<N: Numbers>(
    numbers: &N,
    value: Valued,
    before: Seq<Seq<char>>,
    outcome: Executed,
    after: Seq<Seq<char>>,
) -> bool {
    match value {
        Ok(value) => {
            &&& outcome == Ok::<(), Diagnostic>(())
            &&& after.len() == before.len() + 1
            &&& after.drop_last() == before
            &&& stringified(numbers, value, after.last())
        },
        Err(error) => outcome == Err::<(), Diagnostic>(error) && after == before,
    }
}

/// `outcome` and `after` are a possible outcome of a print statement.
pub open spec fn prints<N: Numbers>(
    numbers: &N,
    expr: ExprView,
    before: State,
    outcome: Executed,
    after: State,
) -> bool {
    exists|value: Valued|
        #![trigger through(value)]
        {
            &&& through(value)
            &&& evaluates(numbers, expr, before.variables, value, after.variables)
            &&& printed(numbers, value, before.output, outcome, after.output)
        }
}

/// What a declaration makes of the outcome of its initializer: a value is
/// bound to the name, whether or not the name was bound before.
pub open spec fn bound(name: TokenView, value: Valued, middle: Bindings, outcome: Executed, after: Bindings) -> bool {
    match value {
        Ok(value) => outcome == Ok::<(), Diagnostic>(()) && after == middle.insert(name.lexeme, value),
        Err(error) => outcome == Err::<(), Diagnostic>(error) && after == middle,
    }
}

/// `outcome` and `after` are a possible outcome of a declaration with an
/// initializer.
pub open spec fn declares<N: Numbers>(
    numbers: &N,
    name: TokenView,
    initializer: ExprView,
    before: State,
    outcome: Executed,
    after: State,
) -> bool {
    &&& after.output == before.output
    &&& exists|value: Valued, middle: Bindings|
        #![trigger through_both(value, middle)]
        {
            &&& through_both(value, middle)
            &&& evaluates(numbers, initializer, before.variables, value, middle)
            &&& bound(name, value, middle, outcome, after.variables)
        }
}

/// `outcome` and `after` are a possible outcome of executing `stmt` in the
/// state `before`, and the state after it.  A declaration without an
/// initializer does nothing: the name stays as it was.
pub open spec fn executes<N: Numbers>(
    numbers: &N,
    stmt: StmtView,
    before: State,
    outcome: Executed,
    after: State,
) -> bool {
    match stmt {
        StmtView::Expression(expr) => executes_expression(numbers, expr, before, outcome, after),
        StmtView::Print(expr) => prints(numbers, expr, before, outcome, after),
        StmtView::Var(name, initializer) => match initializer {
            Some(expr) => declares(numbers, name, expr, before, outcome, after),
            None => outcome == Ok::<(), Diagnostic>(()) && after == before,
        },
    }
}

/// `outcome` and `after` are a possible outcome of executing `statements`
/// in order from the state `before`: either all but the last ran without an
/// error and the last gave the outcome, or an earlier one failed, which
/// ended the run there with what had been done.
pub open spec fn interprets<N: Numbers>(
    numbers: &N,
    statements: Seq<StmtView>,
    before: State,
    outcome: Executed,
    after: State,
) -> bool
    decreases statements.len(), 1nat,
{
    if statements.len() == 0 {
        outcome == Ok::<(), Diagnostic>(()) && after == before
    } else {
        ||| outcome is Err && interprets(numbers, statements.drop_last(), before, outcome, after)
        ||| reaches_last(numbers, statements, before, outcome, after)
    }
}

/// [`interprets`], where all statements but the last ran without an error.
pub open spec fn reaches_last<N: Numbers>(
    numbers: &N,
    statements: Seq<StmtView>,
    before: State,
    outcome: Executed,
    after: State,
) -> bool
    decreases statements.len(), 0nat,
{
    &&& statements.len() > 0
    &&& exists|middle: State|
        #![trigger through_state(middle)]
        {
            &&& through_state(middle)
            &&& interprets(numbers, statements.drop_last(), before, Ok(()), middle)
            &&& executes(numbers, statements.last(), middle, outcome, after)
        }
}

/// A run that has failed stays as it is, whatever statements follow.
pub proof fn failure_ends_run<N: Numbers>(
    numbers: &N,
    statements: Seq<StmtView>,
    count: int,
    before: State,
    outcome: Executed,
    after: State,
)
    requires
        0 <= count <= statements.len(),
        outcome is Err,
        interprets(numbers, statements.take(count), before, outcome, after),
    ensures
        interprets(numbers, statements, before, outcome, after),
    decreases statements.len() - count,
{
    if count < statements.len() {
        assert(statements.take(count + 1).drop_last() =~= statements.take(count));
        failure_ends_run(numbers, statements, count + 1, before, outcome, after);
    } else {
        assert(statements.take(count) =~= statements);
    }
}

/// The interpreter: the variables of a run, and the lines that its print
/// statements have written.
pub struct Interpreter {
    environment: Environment,
    output: Vec<String>,
}

impl Interpreter {
    /// The state of the run.
    pub closed spec fn state(&self) -> State {
        State { variables: self.environment.bindings(), output: self.output.deep_view() }
    }

    /// An interpreter with no variable defined and nothing written.
    pub fn new() -> (interpreter: Interpreter)
        ensures
            interpreter.state() == (State { variables: Map::empty(), output: Seq::empty() }),
    {
        let interpreter = Interpreter { environment: Environment::new(), output: Vec::new() };
        assert(interpreter.output.deep_view() =~= Seq::<Seq<char>>::empty());
        interpreter
    }

    /// The lines written so far.
    pub fn output(&self) -> (lines: &Vec<String>)
        ensures
            lines.deep_view() == self.state().output,
    {
        &self.output
    }

    /// Hands out the lines written so far, and starts over with none.
    pub fn take_output(&mut self) -> (lines: Vec<String>)
        ensures
            lines.deep_view() == old(self).state().output,
            final(self).state() == (State { variables: old(self).state().variables, output: Seq::empty() }),
    {
        let mut lines: Vec<String> = Vec::new();
        core::mem::swap(&mut lines, &mut self.output);
        assert(self.output.deep_view() =~= Seq::<Seq<char>>::empty());
        lines
    }

    /// Executes the statements in order.  The first runtime error ends the
    /// run; what the statements before it did stays done.
    pub fn interpret<N: Numbers>(&mut self, statements: Vec<Stmt>, numbers: &N) -> (result: LoxResult<()>)
        ensures
            interprets(
                numbers,
                statements.deep_view(),
                old(self).state(),
                outcome_of(result),
                final(self).state(),
            ),
    {
        let mut index: usize = 0;
        while index < statements.len()
            invariant
                index <= statements@.len(),
                interprets(
                    numbers,
                    statements.deep_view().take(index as int),
                    old(self).state(),
                    Ok(()),
                    self.state(),
                ),
            decreases statements@.len() - index,
        {
            let ghost middle = self.state();
            let step = self.execute(&statements[index], numbers);
            proof {
                let done = statements.deep_view().take(index + 1);
                assert(done.drop_last() =~= statements.deep_view().take(index as int));
                assert(done.last() == statements@[index as int]@);
                assert(through_state(middle));
                assert(interprets(numbers, done.drop_last(), old(self).state(), Ok(()), middle));
                assert(reaches_last(numbers, done, old(self).state(), outcome_of(step), self.state()));
            }
            match step {
                Ok(_) => {},
                Err(error) => {
                    proof {
                        failure_ends_run(
                            numbers,
                            statements.deep_view(),
                            index + 1,
                            old(self).state(),
                            outcome_of(step),
                            self.state(),
                        );
                    }
                    return Err(error);
                },
            }
            index += 1;
        }
        proof {
            assert(statements.deep_view().take(index as int) =~= statements.deep_view());
        }
        Ok(())
    }

    /// Executes one statement.
    pub fn execute<N: Numbers>(&mut self, stmt: &Stmt, numbers: &N) -> (result: LoxResult<()>)
        ensures
            executes(numbers, stmt@, old(self).state(), outcome_of(result), final(self).state()),
    {
        match stmt {
            Stmt::Expression(expr) => self.visit_expression_stmt(expr, numbers),
            Stmt::Print(expr) => self.visit_print_stmt(expr, numbers),
            Stmt::Var(token, expr) => self.visit_var_stmt(token, expr, numbers),
        }
    }

    /// Evaluates one expression.
    pub fn evaluate<N: Numbers>(&mut self, expr: &Expr, numbers: &N) -> (result: LoxResult<LoxValue>)
        ensures
            final(self).state().output == old(self).state().output,
            evaluates(
                numbers,
                expr@,
                old(self).state().variables,
                value_of(result),
                final(self).state().variables,
            ),
        decreases size(expr@), 1nat,
    {
        match expr {
            Expr::Binary(left, token, right) => self.visit_binary_expr(left, token, right, numbers),
            Expr::Literal(literal) => self.visit_literal_expr(literal),
            Expr::Grouping(expr) => self.visit_grouping_expr(expr, numbers),
            Expr::Unary(token, expr) => self.visit_unary_expr(token, expr, numbers),
            Expr::Variable(token) => self.visit_variable_expr(token),
            Expr::Assign(token, expr) => self.visit_assign_expr(token, expr, numbers),
        }
    }

    /// Whether a value counts as true.  Nothing, `nil` and `false` do not;
    /// everything else does, zero and the empty string too.
    pub fn is_truthy(&self, object: Option<LoxValue>) -> (truth: bool)
        ensures
            truth == match object {
                None => false,
                Some(value) => truthy(value@),
            },
    {
        match object {
            None => false,
            Some(lox_value) => match lox_value.value {
                LiteralType::LBoolean(literal) => literal,
                LiteralType::LNil => false,
                _ => true,
            },
        }
    }

    fn visit_literal_expr(&self, literal: &LiteralType) -> (result: LoxResult<LoxValue>)
        ensures
            value_of(result) == Ok::<Literal, Diagnostic>(literal@),
    {
        Ok(LoxValue { value: literal.clone() })
    }

    fn visit_grouping_expr<N: Numbers>(&mut self, expr: &Expr, numbers: &N) -> (result: LoxResult<LoxValue>)
        ensures
            final(self).state().output == old(self).state().output,
            evaluates(
                numbers,
                expr@,
                old(self).state().variables,
                value_of(result),
                final(self).state().variables,
            ),
        decreases size(expr@) + 1, 0nat,
    {
        self.evaluate(expr, numbers)
    }

    fn visit_unary_expr<N: Numbers>(&mut self, token: &Token, expr: &Expr, numbers: &N) -> (result: LoxResult<
        LoxValue,
    >)
        ensures
            final(self).state().output == old(self).state().output,
            negates_operand(
                numbers,
                ExprView::Unary(token@, Box::new(expr@)),
                old(self).state().variables,
                value_of(result),
                final(self).state().variables,
            ),
        decreases size(expr@) + 1, 0nat,
    {
        let right = match self.evaluate(expr, numbers) {
            Ok(value) => value,
            Err(error) => {
                proof {
                    assert(through(Err::<Literal, Diagnostic>(error@)));
                }
                return Err(error);
            },
        };
        let ghost operand = right@;
        let result = match token.token_type {
            TokenType::Minus => match right.value {
                LiteralType::LNumber(val) => Ok(
                    LoxValue { value: LiteralType::LNumber(numbers.negate(val)) },
                ),
                _ => Err(Error::RuntimeError(token.line, OPERAND_NOT_NUMBER.to_owned())),
            },
            TokenType::Bang => Ok(LoxValue { value: LiteralType::LBoolean(!self.is_truthy(Some(right))) }),
            _ => Ok(LoxValue { value: LiteralType::LNil }),
        };
        proof {
            assert(through(Ok::<Literal, Diagnostic>(operand)));
            assert(unary_applied(numbers, token@, Ok(operand), value_of(result)));
        }
        result
    }

    fn visit_binary_expr<N: Numbers>(
        &mut self,
        left: &Expr,
        token: &Token,
        right: &Expr,
        numbers: &N,
    ) -> (result: LoxResult<LoxValue>)
        ensures
            final(self).state().output == old(self).state().output,
            operates(
                numbers,
                ExprView::Binary(Box::new(left@), token@, Box::new(right@)),
                old(self).state().variables,
                value_of(result),
                final(self).state().variables,
            ),
        decreases size(left@) + size(right@) + 1, 0nat,
    {
        let ghost tree = ExprView::Binary(Box::new(left@), token@, Box::new(right@));
        let i_left = match self.evaluate(left, numbers) {
            Ok(value) => value,
            Err(error) => {
                proof {
                    assert(through_both(Err::<Literal, Diagnostic>(error@), self.state().variables));
                }
                return Err(error);
            },
        };
        let ghost middle = self.state().variables;
        let ghost first = i_left@;
        let i_right = match self.evaluate(right, numbers) {
            Ok(value) => value,
            Err(error) => {
                proof {
                    assert(through(Err::<Literal, Diagnostic>(error@)));
                    assert(through_both(Ok::<Literal, Diagnostic>(first), middle));
                    assert(binary_applied(numbers, token@, first, Err(error@), Err(error@)));
                    assert(operates_right(
                        numbers,
                        tree,
                        first,
                        middle,
                        Err(error@),
                        self.state().variables,
                    ));
                }
                return Err(error);
            },
        };
        let ghost second = i_right@;

        let value = match token.token_type {
            TokenType::Greater => i_left.value.greater(i_right.value, numbers),
            TokenType::GreaterEqual => i_left.value.greater_equal(i_right.value, numbers),
            TokenType::Less => i_left.value.less(i_right.value, numbers),
            TokenType::LessEqual => i_left.value.less_equal(i_right.value, numbers),
            TokenType::EqualEqual => i_left.value.equal(i_right.value, numbers),
            TokenType::BangEqual => i_left.value.not_equal(i_right.value, numbers),
            TokenType::Minus => i_left.value.sub(i_right.value, numbers),
            TokenType::Slash => i_left.value.div(i_right.value, numbers),
            TokenType::Star => i_left.value.mul(i_right.value, numbers),
            TokenType::Plus => i_left.value.add(i_right.value, numbers),
            _ => Err(INVALID_OPERATOR.to_owned()),
        };
        let result = match value {
            Ok(value) => Ok(LoxValue { value }),
            Err(message) => Err(Error::RuntimeError(token.line, message)),
        };
        proof {
            assert(through(Ok::<Literal, Diagnostic>(second)));
            assert(through_both(Ok::<Literal, Diagnostic>(first), middle));
            assert(binary_applied(numbers, token@, first, Ok(second), value_of(result)));
            assert(operates_right(
                numbers,
                tree,
                first,
                middle,
                value_of(result),
                self.state().variables,
            ));
        }
        result
    }

    fn visit_variable_expr(&self, token: &Token) -> (result: LoxResult<LoxValue>)
        ensures
            value_of(result) == tagged(token@.line, read(self.state().variables, token@.lexeme)),
    {
        match self.environment.get(token.lexeme.as_str()) {
            Ok(value) => Ok(value),
            Err(message) => Err(Error::RuntimeError(token.line, message)),
        }
    }

    fn visit_assign_expr<N: Numbers>(&mut self, token: &Token, expr: &Expr, numbers: &N) -> (result: LoxResult<
        LoxValue,
    >)
        ensures
            final(self).state().output == old(self).state().output,
            assigns(
                numbers,
                ExprView::Assign(token@, Box::new(expr@)),
                old(self).state().variables,
                value_of(result),
                final(self).state().variables,
            ),
        decreases size(expr@) + 1, 0nat,
    {
        let value = match self.evaluate(expr, numbers) {
            Ok(value) => value,
            Err(error) => {
                proof {
                    assert(through_both(Err::<Literal, Diagnostic>(error@), self.state().variables));
                    assert(stored(
                        token@,
                        Err(error@),
                        self.state().variables,
                        Err(error@),
                        self.state().variables,
                    ));
                }
                return Err(error);
            },
        };
        let ghost middle = self.state().variables;
        let result = match self.environment.assign(token.lexeme.clone(), &value) {
            Ok(_) => Ok(value),
            Err(message) => Err(Error::RuntimeError(token.line, message)),
        };
        proof {
            assert(through_both(Ok::<Literal, Diagnostic>(value@), middle));
            assert(stored(token@, Ok(value@), middle, value_of(result), self.state().variables));
        }
        result
    }

    fn visit_print_stmt<N: Numbers>(&mut self, expr: &Expr, numbers: &N) -> (result: LoxResult<()>)
        ensures
            prints(numbers, expr@, old(self).state(), outcome_of(result), final(self).state()),
    {
        let value = match self.evaluate(expr, numbers) {
            Ok(value) => value,
            Err(error) => {
                proof {
                    assert(through(Err::<Literal, Diagnostic>(error@)));
                    assert(printed(
                        numbers,
                        Err(error@),
                        old(self).state().output,
                        Err(error@),
                        self.state().output,
                    ));
                }
                return Err(error);
            },
        };
        let ghost lines = self.output.deep_view();
        self.output.push(value.value.stringify(numbers));
        proof {
            assert(self.output.deep_view().drop_last() =~= lines);
            assert(through(Ok::<Literal, Diagnostic>(value@)));
            assert(printed(numbers, Ok(value@), old(self).state().output, Ok(()), self.state().output));
        }
        Ok(())
    }

    fn visit_expression_stmt<N: Numbers>(&mut self, expr: &Expr, numbers: &N) -> (result: LoxResult<()>)
        ensures
            executes_expression(numbers, expr@, old(self).state(), outcome_of(result), final(self).state()),
    {
        let value = self.evaluate(expr, numbers);
        proof {
            assert(through(value_of(value)));
        }
        match value {
            Ok(_) => Ok(()),
            Err(error) => Err(error),
        }
    }

    fn visit_var_stmt<N: Numbers>(&mut self, token: &Token, expr: &Option<Box<Expr>>, numbers: &N) -> (result:
        LoxResult<()>)
        ensures
            executes(
                numbers,
                StmtView::Var(
                    token@,
                    match expr {
                        Some(initializer) => Some(initializer@),
                        None => None,
                    },
                ),
                old(self).state(),
                outcome_of(result),
                final(self).state(),
            ),
    {
        let mut value: Option<LoxValue> = None;
        if let Some(var) = expr {
            match self.evaluate(var, numbers) {
                Ok(initial) => {
                    value = Some(initial);
                },
                Err(error) => {
                    proof {
                        assert(through_both(Err::<Literal, Diagnostic>(error@), self.state().variables));
                        assert(bound(
                            token@,
                            Err(error@),
                            self.state().variables,
                            Err(error@),
                            self.state().variables,
                        ));
                    }
                    return Err(error);
                },
            }
            let ghost middle = self.state().variables;
            self.environment.define(token.lexeme.clone(), value);
            proof {
                assert(through_both(Ok::<Literal, Diagnostic>(value->0@), middle));
                assert(bound(token@, Ok(value->0@), middle, Ok(()), self.state().variables));
            }
        } else {
            self.environment.define(token.lexeme.clone(), value);
        }
        Ok(())
    }
}

/// What the result of an evaluation stands for.
pub open spec fn value_of(result: LoxResult<LoxValue>) -> Valued {
    match result {
        Ok(value) => Ok(value@),
        Err(error) => Err(error@),
    }
}

/// What the result of an execution stands for.
pub open spec fn outcome_of(result: LoxResult<()>) -> Executed {
    match result {
        Ok(_) => Ok(()),
        Err(error) => Err(error@),
    }
}

} // verus!
