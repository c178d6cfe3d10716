use rlox::ast::{Expr, Stmt};
use rlox::ast_printer::AstPrinter;
use rlox::errors::Error;
use rlox::numbers::Numbers;
use rlox::parser::Parser;
use rlox::scanner::token::{LiteralType, Token};
use rlox::scanner::token_type::TokenType;
use rlox::scanner::Scanner;

struct Doubles;

impl Numbers for Doubles {
    fn parse(&self, text: &str) -> u64 {
        text.parse::<f64>().unwrap().to_bits()
    }

    fn format(&self, value: u64) -> String {
        f64::from_bits(value).to_string()
    }

    fn negate(&self, value: u64) -> u64 {
        (-f64::from_bits(value)).to_bits()
    }

    fn sum(&self, left: u64, right: u64) -> u64 {
        (f64::from_bits(left) + f64::from_bits(right)).to_bits()
    }

    fn difference(&self, left: u64, right: u64) -> u64 {
        (f64::from_bits(left) - f64::from_bits(right)).to_bits()
    }

    fn product(&self, left: u64, right: u64) -> u64 {
        (f64::from_bits(left) * f64::from_bits(right)).to_bits()
    }

    fn quotient(&self, left: u64, right: u64) -> u64 {
        (f64::from_bits(left) / f64::from_bits(right)).to_bits()
    }

    fn greater(&self, left: u64, right: u64) -> bool {
        f64::from_bits(left) > f64::from_bits(right)
    }

    fn greater_equal(&self, left: u64, right: u64) -> bool {
        f64::from_bits(left) >= f64::from_bits(right)
    }

    fn less(&self, left: u64, right: u64) -> bool {
        f64::from_bits(left) < f64::from_bits(right)
    }

    fn less_equal(&self, left: u64, right: u64) -> bool {
        f64::from_bits(left) <= f64::from_bits(right)
    }

    fn equal(&self, left: u64, right: u64) -> bool {
        f64::from_bits(left) == f64::from_bits(right)
    }

    fn not_equal(&self, left: u64, right: u64) -> bool {
        f64::from_bits(left) != f64::from_bits(right)
    }
}

fn tokens(source: &str) -> Vec<Token> {
    let mut scanner = Scanner::new(source.to_string());
    assert_eq!(scanner.scan_tokens(&Doubles), Ok(()));
    scanner.into_tokens()
}

fn parse(source: &str) -> Result<Vec<Stmt>, Error> {
    Parser::new(tokens(source)).parse()
}

fn expression(source: &str) -> Expr {
    let mut statements = parse(source).unwrap();
    assert_eq!(statements.len(), 1);
    match statements.remove(0) {
        Stmt::Expression(expr) => *expr,
        other => panic!("{:?} is no expression statement", other),
    }
}

fn shape(source: &str) -> String {
    AstPrinter {}.print(expression(source), &Doubles)
}

fn number(value: f64) -> Expr {
    Expr::Literal(LiteralType::LNumber(value.to_bits()))
}

fn token(kind: TokenType, lexeme: &str, line: usize) -> Token {
    Token::new(kind, lexeme.to_string(), None, line)
}

#[test]
fn a_factor_binds_tighter_than_a_term() {
    assert_eq!(
        expression("1 + 2 * 3;"),
        Expr::Binary(
            Box::new(number(1.0)),
            token(TokenType::Plus, "+", 1),
            Box::new(Expr::Binary(
                Box::new(number(2.0)),
                token(TokenType::Star, "*", 1),
                Box::new(number(3.0)),
            )),
        ),
    );
    assert_eq!(shape("1 * 2 + 3;"), "(+ (* 1 2) 3)");
    assert_eq!(shape("1 + 2 * 3 - 4 / 5;"), "(- (+ 1 (* 2 3)) (/ 4 5))");
}

#[test]
fn the_levels_nest_from_equality_down_to_unary() {
    assert_eq!(shape("1 == 2 < 3 + 4 * -5;"), "(== 1 (< 2 (+ 3 (* 4 (- 5)))))");
    assert_eq!(shape("-1 * 2 + 3 < 4 == 5;"), "(== (< (+ (* (- 1) 2) 3) 4) 5)");
    assert_eq!(shape("1 != 2 >= 3 - 4 / !5;"), "(!= 1 (>= 2 (- 3 (/ 4 (! 5)))))");
    assert_eq!(shape("1 > 2 <= 3;"), "(<= (> 1 2) 3)");
}

#[test]
fn binary_operators_nest_to_the_left() {
    assert_eq!(shape("1 - 2 - 3;"), "(- (- 1 2) 3)");
    assert_eq!(shape("1 / 2 * 3 / 4;"), "(/ (* (/ 1 2) 3) 4)");
    assert_eq!(shape("1 == 2 != 3;"), "(!= (== 1 2) 3)");
}

#[test]
fn unary_operators_nest_to_the_right() {
    assert_eq!(shape("-1 + 2;"), "(+ (- 1) 2)");
    assert_eq!(shape("!-!1;"), "(! (- (! 1)))");
    assert_eq!(shape("1 - -2;"), "(- 1 (- 2))");
}

#[test]
fn a_grouping_holds_any_expression() {
    assert_eq!(shape("(1 + 2) * 3;"), "(* (group (+ 1 2)) 3)");
    assert_eq!(shape("((1));"), "(group (group 1))");
    assert_eq!(shape("-(a = 1);"), "(- (group (= a 1)))");
}

#[test]
fn an_assignment_nests_to_the_right() {
    assert_eq!(shape("a = b = 3;"), "(= a (= b 3))");
    assert_eq!(shape("a = 1 + 2;"), "(= a (+ 1 2))");
    assert_eq!(
        expression("a = 1;"),
        Expr::Assign(token(TokenType::Identifier, "a", 1), Box::new(number(1.0))),
    );
}

#[test]
fn literals_and_variables_are_primaries() {
    assert_eq!(expression("true;"), Expr::Literal(LiteralType::LBoolean(true)));
    assert_eq!(expression("false;"), Expr::Literal(LiteralType::LBoolean(false)));
    assert_eq!(expression("nil;"), Expr::Literal(LiteralType::LNil));
    assert_eq!(expression("\"s\";"), Expr::Literal(LiteralType::LString("s".to_string())));
    assert_eq!(expression("1.5;"), number(1.5));
    assert_eq!(expression("\nname;"), Expr::Variable(token(TokenType::Identifier, "name", 2)));
}

#[test]
fn statements_come_in_order() {
    assert_eq!(
        parse("var a = 1; print a; a; var b;"),
        Ok(vec![
            Stmt::Var(token(TokenType::Identifier, "a", 1), Some(Box::new(number(1.0)))),
            Stmt::Print(Box::new(Expr::Variable(token(TokenType::Identifier, "a", 1)))),
            Stmt::Expression(Box::new(Expr::Variable(token(TokenType::Identifier, "a", 1)))),
            Stmt::Var(token(TokenType::Identifier, "b", 1), None),
        ]),
    );
    assert_eq!(parse(""), Ok(vec![]));
}

#[test]
fn a_missing_operand_is_an_error_at_the_token_found() {
    assert_eq!(parse("1 +;"), Err(Error::ParseError(1, "Expect expression".to_string())));
    assert_eq!(parse("1 +\n\n;"), Err(Error::ParseError(3, "Expect expression".to_string())));
    assert_eq!(parse("print ;"), Err(Error::ParseError(1, "Expect expression".to_string())));
    assert_eq!(parse("1 * / 2;"), Err(Error::ParseError(1, "Expect expression".to_string())));
    assert_eq!(parse("-"), Err(Error::ParseError(1, "Expect expression".to_string())));
    assert_eq!(parse("+ 1;"), Err(Error::ParseError(1, "Expect expression".to_string())));
}

#[test]
fn a_missing_right_parenthesis_is_an_error() {
    assert_eq!(parse("(1 + 2;"), Err(Error::ParseError(1, "Expect ')' after expression".to_string())));
    assert_eq!(parse("(1\n"), Err(Error::ParseError(2, "Expect ')' after expression".to_string())));
    assert_eq!(parse("()"), Err(Error::ParseError(1, "Expect expression".to_string())));
}

#[test]
fn a_missing_semicolon_is_an_error() {
    assert_eq!(parse("1 + 2"), Err(Error::ParseError(1, "Expect ; after expression.".to_string())));
    assert_eq!(parse("print 1\nprint 2;"), Err(Error::ParseError(2, "Expect ; after value.".to_string())));
    assert_eq!(
        parse("var a = 1\n\n"),
        Err(Error::ParseError(3, "Expect ';' after variable declaration.".to_string())),
    );
    assert_eq!(
        parse("var a 1;"),
        Err(Error::ParseError(1, "Expect ';' after variable declaration.".to_string())),
    );
    assert_eq!(parse("1 2;"), Err(Error::ParseError(1, "Expect ; after expression.".to_string())));
}

#[test]
fn a_declaration_needs_a_name() {
    assert_eq!(parse("var = 1;"), Err(Error::ParseError(1, "Expect variable name.".to_string())));
    assert_eq!(parse("var\n1;"), Err(Error::ParseError(2, "Expect variable name.".to_string())));
    assert_eq!(parse("var print;"), Err(Error::ParseError(1, "Expect variable name.".to_string())));
    assert_eq!(parse("var"), Err(Error::ParseError(1, "Expect variable name.".to_string())));
}

#[test]
fn only_a_variable_can_be_assigned() {
    assert_eq!(parse("1 = 2;"), Err(Error::ParseError(1, "Invalid assignment target".to_string())));
    assert_eq!(parse("(a) = 2;"), Err(Error::ParseError(1, "Invalid assignment target".to_string())));
    assert_eq!(parse("a + b = 2\n;"), Err(Error::ParseError(2, "Invalid assignment target".to_string())));
    assert_eq!(parse("1 = ;"), Err(Error::ParseError(1, "Expect expression".to_string())));
}

#[test]
fn the_first_error_is_the_one_returned() {
    assert_eq!(parse("print 1;\n( ;\nvar = 2;"), Err(Error::ParseError(2, "Expect expression".to_string())));
}

#[test]
fn tokens_without_an_end_token_are_parsed_to_their_end() {
    let some = vec![
        Token::new(TokenType::Number, "1".to_string(), Some(LiteralType::LNumber(1f64.to_bits())), 4),
        token(TokenType::Semicolon, ";", 4),
    ];
    assert_eq!(Parser::new(some).parse(), Ok(vec![Stmt::Expression(Box::new(number(1.0)))]));
    let open = vec![token(TokenType::Print, "print", 7)];
    assert_eq!(Parser::new(open).parse(), Err(Error::ParseError(7, "Expect expression".to_string())));
    assert_eq!(Parser::new(vec![]).parse(), Ok(vec![]));
}

#[test]
fn what_follows_the_end_token_is_not_parsed() {
    let some = vec![
        token(TokenType::Identifier, "a", 1),
        token(TokenType::Semicolon, ";", 1),
        token(TokenType::EOF, "", 1),
        token(TokenType::Plus, "+", 2),
    ];
    assert_eq!(
        Parser::new(some).parse(),
        Ok(vec![Stmt::Expression(Box::new(Expr::Variable(token(TokenType::Identifier, "a", 1))))]),
    );
}

#[test]
fn a_literal_token_without_a_value_is_no_expression() {
    let some = vec![token(TokenType::Number, "1", 3), token(TokenType::Semicolon, ";", 4)];
    assert_eq!(Parser::new(some).parse(), Err(Error::ParseError(3, "Expect expression".to_string())));
}

#[test]
fn synchronizing_skips_to_the_next_statement() {
    let mut parser = Parser::new(tokens("1 + ; print 2; 3 * ) 4 var x = 5; 6; )"));
    assert_eq!(parser.parse(), Err(Error::ParseError(1, "Expect expression".to_string())));
    parser.synchronize();
    assert_eq!(parser.parse(), Err(Error::ParseError(1, "Expect expression".to_string())));
    parser.synchronize();
    assert_eq!(parser.parse(), Err(Error::ParseError(1, "Expect expression".to_string())));
    parser.synchronize();
    assert_eq!(parser.parse(), Ok(vec![]));
    parser.synchronize();
    assert_eq!(parser.parse(), Ok(vec![]));
}

#[test]
fn parsing_resumes_behind_a_semicolon_or_at_a_statement() {
    let mut parser = Parser::new(tokens("( 1 ; print 2;"));
    assert_eq!(parser.parse(), Err(Error::ParseError(1, "Expect ')' after expression".to_string())));
    parser.synchronize();
    assert_eq!(parser.parse(), Ok(vec![Stmt::Print(Box::new(number(2.0)))]));

    let mut parser = Parser::new(tokens("1 2 3 var x; 4;"));
    assert_eq!(parser.parse(), Err(Error::ParseError(1, "Expect ; after expression.".to_string())));
    parser.synchronize();
    assert_eq!(
        parser.parse(),
        Ok(vec![
            Stmt::Var(token(TokenType::Identifier, "x", 1), None),
            Stmt::Expression(Box::new(number(4.0))),
        ]),
    );
}

#[test]
fn a_tree_can_be_copied() {
    let tree = expression("a = (1 + -b) * \"s\";");
    assert_eq!(tree.clone(), tree);
}
