use rlox::ast::Expr;
use rlox::ast_printer::AstPrinter;
use rlox::errors::Error;
use rlox::interpreter::Interpreter;
use rlox::numbers::Numbers;
use rlox::run;
use rlox::scanner::token::{LiteralType, Token};
use rlox::scanner::token_type::TokenType;

struct Doubles;

impl Numbers for Doubles {
    fn parse(&self, text: &str) -> u64 {
        text.parse::<f64>().unwrap().to_bits()
    }

    fn format(&self, value: u64) -> String {
        f64::from_bits(value).to_string()
    }

    fn negate(&self, value: u64) -> u64 {
        (-f64::from_bits(value)).to_bits()
    }

    fn sum(&self, left: u64, right: u64) -> u64 {
        (f64::from_bits(left) + f64::from_bits(right)).to_bits()
    }

    fn difference(&self, left: u64, right: u64) -> u64 {
        (f64::from_bits(left) - f64::from_bits(right)).to_bits()
    }

    fn product(&self, left: u64, right: u64) -> u64 {
        (f64::from_bits(left) * f64::from_bits(right)).to_bits()
    }

    fn quotient(&self, left: u64, right: u64) -> u64 {
        (f64::from_bits(left) / f64::from_bits(right)).to_bits()
    }

    fn greater(&self, left: u64, right: u64) -> bool {
        f64::from_bits(left) > f64::from_bits(right)
    }

    fn greater_equal(&self, left: u64, right: u64) -> bool {
        f64::from_bits(left) >= f64::from_bits(right)
    }

    fn less(&self, left: u64, right: u64) -> bool {
        f64::from_bits(left) < f64::from_bits(right)
    }

    fn less_equal(&self, left: u64, right: u64) -> bool {
        f64::from_bits(left) <= f64::from_bits(right)
    }

    fn equal(&self, left: u64, right: u64) -> bool {
        f64::from_bits(left) == f64::from_bits(right)
    }

    fn not_equal(&self, left: u64, right: u64) -> bool {
        f64::from_bits(left) != f64::from_bits(right)
    }
}

fn text(expr: Expr) -> String {
    AstPrinter {}.print(expr, &Doubles)
}

fn number(value: f64) -> Expr {
    Expr::Literal(LiteralType::LNumber(value.to_bits()))
}

fn token(kind: TokenType, lexeme: &str) -> Token {
    Token::new(kind, lexeme.to_string(), None, 1)
}

#[test]
fn literals_are_printed_as_they_read() {
    assert_eq!(text(number(123.0)), "123");
    assert_eq!(text(number(45.67)), "45.67");
    assert_eq!(text(Expr::Literal(LiteralType::LString("hello".to_string()))), "hello");
    assert_eq!(text(Expr::Literal(LiteralType::LBoolean(true))), "true");
    assert_eq!(text(Expr::Literal(LiteralType::LBoolean(false))), "false");
    assert_eq!(text(Expr::Literal(LiteralType::LNil)), "nil");
}

#[test]
fn operations_are_printed_in_prefix_form() {
    let tree = Expr::Binary(
        Box::new(Expr::Unary(token(TokenType::Minus, "-"), Box::new(number(123.0)))),
        token(TokenType::Star, "*"),
        Box::new(Expr::Grouping(Box::new(number(45.67)))),
    );
    assert_eq!(text(tree), "(* (- 123) (group 45.67))");
}

#[test]
fn variables_and_assignments_are_printed_by_name() {
    assert_eq!(text(Expr::Variable(token(TokenType::Identifier, "count"))), "count");
    assert_eq!(
        text(Expr::Assign(
            token(TokenType::Identifier, "count"),
            Box::new(Expr::Binary(
                Box::new(Expr::Variable(token(TokenType::Identifier, "count"))),
                token(TokenType::Plus, "+"),
                Box::new(number(1.0)),
            )),
        )),
        "(= count (+ count 1))",
    );
}

fn value_of(source: &str) -> Result<Vec<String>, Error> {
    let mut interpreter = Interpreter::new();
    run(
        "var t = true; var n = nil; var x = 3;".to_string(),
        &mut interpreter,
        &Doubles,
    )?;
    run(format!("print {};", source), &mut interpreter, &Doubles)?;
    Ok(interpreter.take_output())
}

#[test]
fn the_text_of_a_unary_operation_evaluates_to_its_value() {
    let trees = vec![
        (Expr::Unary(token(TokenType::Minus, "-"), Box::new(number(1.5))), "-1.5"),
        (
            Expr::Unary(
                token(TokenType::Bang, "!"),
                Box::new(Expr::Unary(token(TokenType::Bang, "!"), Box::new(Expr::Literal(LiteralType::LNil)))),
            ),
            "false",
        ),
        (
            Expr::Unary(
                token(TokenType::Minus, "-"),
                Box::new(Expr::Variable(token(TokenType::Identifier, "x"))),
            ),
            "-3",
        ),
        (Expr::Variable(token(TokenType::Identifier, "t")), "true"),
        (Expr::Literal(LiteralType::LNil), "nil"),
        (number(2.0), "2"),
    ];
    for (tree, value) in trees {
        let printed = text(tree);
        assert_eq!(value_of(&printed), Ok(vec![value.to_string()]));
    }
}

#[test]
fn the_text_of_a_binary_operation_is_no_expression() {
    let tree = Expr::Binary(Box::new(number(1.0)), token(TokenType::Plus, "+"), Box::new(number(2.0)));
    let printed = text(tree);
    assert_eq!(printed, "(+ 1 2)");
    assert_eq!(value_of(&printed), Err(Error::ParseError(1, "Expect expression".to_string())));
}
