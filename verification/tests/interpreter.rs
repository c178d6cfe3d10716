use rlox::ast::{Expr, Stmt};
use rlox::environment::LoxValue;
use rlox::errors::Error;
use rlox::interpreter::Interpreter;
use rlox::numbers::Numbers;
use rlox::scanner::token::{strip_trailing_zero, LiteralType, Token};
use rlox::scanner::token_type::TokenType;

struct Doubles;

impl Numbers for Doubles {
    fn parse(&self, text: &str) -> u64 {
        text.parse::<f64>().unwrap().to_bits()
    }

    fn format(&self, value: u64) -> String {
        f64::from_bits(value).to_string()
    }

    fn negate(&self, value: u64) -> u64 {
        (-f64::from_bits(value)).to_bits()
    }

    fn sum(&self, left: u64, right: u64) -> u64 {
        (f64::from_bits(left) + f64::from_bits(right)).to_bits()
    }

    fn difference(&self, left: u64, right: u64) -> u64 {
        (f64::from_bits(left) - f64::from_bits(right)).to_bits()
    }

    fn product(&self, left: u64, right: u64) -> u64 {
        (f64::from_bits(left) * f64::from_bits(right)).to_bits()
    }

    fn quotient(&self, left: u64, right: u64) -> u64 {
        (f64::from_bits(left) / f64::from_bits(right)).to_bits()
    }

    fn greater(&self, left: u64, right: u64) -> bool {
        f64::from_bits(left) > f64::from_bits(right)
    }

    fn greater_equal(&self, left: u64, right: u64) -> bool {
        f64::from_bits(left) >= f64::from_bits(right)
    }

    fn less(&self, left: u64, right: u64) -> bool {
        f64::from_bits(left) < f64::from_bits(right)
    }

    fn less_equal(&self, left: u64, right: u64) -> bool {
        f64::from_bits(left) <= f64::from_bits(right)
    }

    fn equal(&self, left: u64, right: u64) -> bool {
        f64::from_bits(left) == f64::from_bits(right)
    }

    fn not_equal(&self, left: u64, right: u64) -> bool {
        f64::from_bits(left) != f64::from_bits(right)
    }
}

fn number(value: f64) -> LiteralType {
    LiteralType::LNumber(value.to_bits())
}

fn string(value: &str) -> LiteralType {
    LiteralType::LString(value.to_string())
}

fn literal(value: LiteralType) -> Box<Expr> {
    Box::new(Expr::Literal(value))
}

fn token(kind: TokenType, lexeme: &str, line: usize) -> Token {
    Token::new(kind, lexeme.to_string(), None, line)
}

fn evaluate(expr: Expr) -> Result<LiteralType, Error> {
    Interpreter::new().evaluate(&expr, &Doubles).map(|value| value.value)
}

fn binary(left: LiteralType, kind: TokenType, right: LiteralType) -> Result<LiteralType, Error> {
    evaluate(Expr::Binary(literal(left), token(kind, "op", 9), literal(right)))
}

fn unary(kind: TokenType, operand: LiteralType) -> Result<LiteralType, Error> {
    evaluate(Expr::Unary(token(kind, "op", 9), literal(operand)))
}

#[test]
fn a_literal_is_its_value() {
    assert_eq!(evaluate(*literal(number(1.5))), Ok(number(1.5)));
    assert_eq!(evaluate(*literal(string("s"))), Ok(string("s")));
    assert_eq!(evaluate(*literal(LiteralType::LNil)), Ok(LiteralType::LNil));
    assert_eq!(evaluate(Expr::Grouping(literal(LiteralType::LBoolean(true)))), Ok(LiteralType::LBoolean(true)));
}

#[test]
fn arithmetic_applies_to_numbers() {
    assert_eq!(binary(number(6.0), TokenType::Plus, number(2.0)), Ok(number(8.0)));
    assert_eq!(binary(number(6.0), TokenType::Minus, number(2.0)), Ok(number(4.0)));
    assert_eq!(binary(number(6.0), TokenType::Star, number(2.0)), Ok(number(12.0)));
    assert_eq!(binary(number(6.0), TokenType::Slash, number(2.0)), Ok(number(3.0)));
    assert_eq!(binary(number(2.0), TokenType::Minus, number(6.0)), Ok(number(-4.0)));
    assert_eq!(binary(number(1.0), TokenType::Slash, number(4.0)), Ok(number(0.25)));
}

#[test]
fn comparisons_give_booleans() {
    assert_eq!(binary(number(1.0), TokenType::Greater, number(2.0)), Ok(LiteralType::LBoolean(false)));
    assert_eq!(binary(number(2.0), TokenType::Greater, number(1.0)), Ok(LiteralType::LBoolean(true)));
    assert_eq!(binary(number(2.0), TokenType::GreaterEqual, number(2.0)), Ok(LiteralType::LBoolean(true)));
    assert_eq!(binary(number(1.0), TokenType::GreaterEqual, number(2.0)), Ok(LiteralType::LBoolean(false)));
    assert_eq!(binary(number(1.0), TokenType::Less, number(2.0)), Ok(LiteralType::LBoolean(true)));
    assert_eq!(binary(number(2.0), TokenType::Less, number(2.0)), Ok(LiteralType::LBoolean(false)));
    assert_eq!(binary(number(2.0), TokenType::LessEqual, number(2.0)), Ok(LiteralType::LBoolean(true)));
    assert_eq!(binary(number(3.0), TokenType::LessEqual, number(2.0)), Ok(LiteralType::LBoolean(false)));
    assert_eq!(binary(number(2.0), TokenType::EqualEqual, number(2.0)), Ok(LiteralType::LBoolean(true)));
    assert_eq!(binary(number(2.0), TokenType::EqualEqual, number(3.0)), Ok(LiteralType::LBoolean(false)));
    assert_eq!(binary(number(2.0), TokenType::BangEqual, number(3.0)), Ok(LiteralType::LBoolean(true)));
    assert_eq!(binary(number(2.0), TokenType::BangEqual, number(2.0)), Ok(LiteralType::LBoolean(false)));
}

#[test]
fn equality_is_by_numeric_value() {
    assert_eq!(binary(number(0.0), TokenType::EqualEqual, number(-0.0)), Ok(LiteralType::LBoolean(true)));
    assert_eq!(
        binary(number(f64::NAN), TokenType::EqualEqual, number(f64::NAN)),
        Ok(LiteralType::LBoolean(false)),
    );
    assert_eq!(
        binary(number(f64::NAN), TokenType::BangEqual, number(f64::NAN)),
        Ok(LiteralType::LBoolean(true)),
    );
}

#[test]
fn a_type_error_is_on_the_line_of_the_operator() {
    assert_eq!(
        binary(string("a"), TokenType::Minus, number(1.0)),
        Err(Error::RuntimeError(9, "Could not perform operation (left is not number)".to_string())),
    );
    assert_eq!(
        binary(number(1.0), TokenType::Star, LiteralType::LNil),
        Err(Error::RuntimeError(9, "Could not perform operation (right is not number)".to_string())),
    );
    assert_eq!(
        binary(LiteralType::LBoolean(true), TokenType::Slash, string("a")),
        Err(Error::RuntimeError(9, "Could not perform operation (left is not number)".to_string())),
    );
    assert_eq!(
        unary(TokenType::Minus, string("a")),
        Err(Error::RuntimeError(9, "Could not perform operation (operand is not number)".to_string())),
    );
}

#[test]
fn a_token_that_is_no_operator_cannot_be_applied() {
    assert_eq!(
        binary(number(1.0), TokenType::Comma, number(2.0)),
        Err(Error::RuntimeError(9, "invalid operator".to_string())),
    );
    assert_eq!(
        binary(number(1.0), TokenType::Bang, number(2.0)),
        Err(Error::RuntimeError(9, "invalid operator".to_string())),
    );
    assert_eq!(unary(TokenType::Plus, number(1.0)), Ok(LiteralType::LNil));
}

#[test]
fn minus_negates_a_number() {
    assert_eq!(unary(TokenType::Minus, number(2.5)), Ok(number(-2.5)));
    assert_eq!(unary(TokenType::Minus, number(-2.5)), Ok(number(2.5)));
    assert_eq!(unary(TokenType::Minus, number(0.0)), Ok(number(-0.0)));
}

#[test]
fn not_gives_the_opposite_of_truthiness() {
    assert_eq!(unary(TokenType::Bang, LiteralType::LNil), Ok(LiteralType::LBoolean(true)));
    assert_eq!(unary(TokenType::Bang, LiteralType::LBoolean(false)), Ok(LiteralType::LBoolean(true)));
    assert_eq!(unary(TokenType::Bang, LiteralType::LBoolean(true)), Ok(LiteralType::LBoolean(false)));
    assert_eq!(unary(TokenType::Bang, number(0.0)), Ok(LiteralType::LBoolean(false)));
    assert_eq!(unary(TokenType::Bang, string("")), Ok(LiteralType::LBoolean(false)));
}

#[test]
fn truthiness_is_false_for_nothing_nil_and_false() {
    let interpreter = Interpreter::new();
    assert!(!interpreter.is_truthy(None));
    assert!(!interpreter.is_truthy(Some(LoxValue { value: LiteralType::LNil })));
    assert!(!interpreter.is_truthy(Some(LoxValue { value: LiteralType::LBoolean(false) })));
    assert!(interpreter.is_truthy(Some(LoxValue { value: LiteralType::LBoolean(true) })));
    assert!(interpreter.is_truthy(Some(LoxValue { value: number(0.0) })));
    assert!(interpreter.is_truthy(Some(LoxValue { value: string("") })));
}

#[test]
fn an_error_in_the_operand_is_the_error_of_the_operation() {
    let missing = Expr::Variable(token(TokenType::Identifier, "missing", 4));
    assert_eq!(
        evaluate(Expr::Unary(token(TokenType::Minus, "-", 9), Box::new(missing.clone()))),
        Err(Error::RuntimeError(4, "Undefined variable missing.".to_string())),
    );
    assert_eq!(
        evaluate(Expr::Binary(literal(string("s")), token(TokenType::Minus, "-", 9), Box::new(missing.clone()))),
        Err(Error::RuntimeError(4, "Undefined variable missing.".to_string())),
    );
    assert_eq!(
        evaluate(Expr::Assign(token(TokenType::Identifier, "x", 2), Box::new(missing))),
        Err(Error::RuntimeError(4, "Undefined variable missing.".to_string())),
    );
}

#[test]
fn statements_are_executed_one_by_one() {
    let mut interpreter = Interpreter::new();
    let name = token(TokenType::Identifier, "x", 1);
    assert_eq!(interpreter.execute(&Stmt::Var(name.clone(), Some(literal(number(3.0)))), &Doubles), Ok(()));
    assert_eq!(interpreter.execute(&Stmt::Print(Box::new(Expr::Variable(name.clone()))), &Doubles), Ok(()));
    assert_eq!(
        interpreter.execute(&Stmt::Expression(Box::new(Expr::Assign(name.clone(), literal(string("s"))))), &Doubles),
        Ok(()),
    );
    assert_eq!(
        interpreter.interpret(
            vec![
                Stmt::Print(Box::new(Expr::Variable(name.clone()))),
                Stmt::Print(Box::new(Expr::Variable(token(TokenType::Identifier, "y", 5)))),
                Stmt::Print(Box::new(Expr::Variable(name))),
            ],
            &Doubles,
        ),
        Err(Error::RuntimeError(5, "Undefined variable y.".to_string())),
    );
    assert_eq!(interpreter.output(), &vec!["3".to_string(), "s".to_string()]);
}

#[test]
fn values_compare_as_numbers() {
    assert_eq!(number(2.0).greater(number(1.0), &Doubles), Ok(LiteralType::LBoolean(true)));
    assert_eq!(number(2.0).greater_equal(number(3.0), &Doubles), Ok(LiteralType::LBoolean(false)));
    assert_eq!(number(2.0).less(number(1.0), &Doubles), Ok(LiteralType::LBoolean(false)));
    assert_eq!(number(2.0).less_equal(number(2.0), &Doubles), Ok(LiteralType::LBoolean(true)));
    assert_eq!(number(2.0).equal(number(2.0), &Doubles), Ok(LiteralType::LBoolean(true)));
    assert_eq!(number(2.0).not_equal(number(2.0), &Doubles), Ok(LiteralType::LBoolean(false)));
    assert_eq!(
        string("a").less(number(1.0), &Doubles),
        Err("Could not perform operation (left is not number)".to_string()),
    );
    assert_eq!(
        number(1.0).equal(string("a"), &Doubles),
        Err("Could not perform operation (right is not number)".to_string()),
    );
    assert_eq!(
        LiteralType::LNil.not_equal(LiteralType::LNil, &Doubles),
        Err("Could not perform operation (left is not number)".to_string()),
    );
}

#[test]
fn values_combine_as_numbers_or_strings() {
    assert_eq!(number(7.0).sub(number(2.0), &Doubles), Ok(number(5.0)));
    assert_eq!(number(7.0).div(number(2.0), &Doubles), Ok(number(3.5)));
    assert_eq!(number(7.0).mul(number(2.0), &Doubles), Ok(number(14.0)));
    assert_eq!(number(7.0).add(number(2.0), &Doubles), Ok(number(9.0)));
    assert_eq!(string("ab").add(string("cd"), &Doubles), Ok(string("abcd")));
    assert_eq!(number(7.0).add(string("a"), &Doubles), Err("cannot add a number and a different thing".to_string()));
    assert_eq!(
        string("a").add(LiteralType::LNil, &Doubles),
        Err("cannot concat a string and a different thing".to_string()),
    );
    assert_eq!(
        LiteralType::LBoolean(true).add(number(1.0), &Doubles),
        Err("dunno what you're trying to sum/concat but it won't work".to_string()),
    );
    assert_eq!(
        string("a").mul(number(1.0), &Doubles),
        Err("Could not perform operation (left is not number)".to_string()),
    );
    assert_eq!(number(1.0).get_number_operands(number(2.0)), Ok((1f64.to_bits(), 2f64.to_bits())));
}

#[test]
fn values_are_stringified() {
    assert_eq!(LiteralType::LNil.stringify(&Doubles), "nil");
    assert_eq!(LiteralType::LBoolean(true).stringify(&Doubles), "true");
    assert_eq!(LiteralType::LBoolean(false).stringify(&Doubles), "false");
    assert_eq!(string("some text").stringify(&Doubles), "some text");
    assert_eq!(string("3.0").stringify(&Doubles), "3.0");
    assert_eq!(number(3.0).stringify(&Doubles), "3");
    assert_eq!(number(3.5).stringify(&Doubles), "3.5");
    assert_eq!(number(-0.0).stringify(&Doubles), "-0");
    assert_eq!(number(1e21).stringify(&Doubles), "1000000000000000000000");
}

#[test]
fn one_trailing_zero_fraction_is_stripped() {
    assert_eq!(strip_trailing_zero("3.0".to_string()), "3");
    assert_eq!(strip_trailing_zero("3.5".to_string()), "3.5");
    assert_eq!(strip_trailing_zero("3.00".to_string()), "3.00");
    assert_eq!(strip_trailing_zero("3.0.0".to_string()), "3.0");
    assert_eq!(strip_trailing_zero("30".to_string()), "30");
    assert_eq!(strip_trailing_zero(".0".to_string()), "");
    assert_eq!(strip_trailing_zero("0".to_string()), "0");
    assert_eq!(strip_trailing_zero(String::new()), "");
    assert_eq!(strip_trailing_zero("ü.0".to_string()), "ü");
}
