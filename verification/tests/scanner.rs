use rlox::errors::Error;
use rlox::numbers::Numbers;
use rlox::scanner::token::{LiteralType, Token};
use rlox::scanner::token_type::TokenType;
use rlox::scanner::Scanner;

struct Doubles;

impl Numbers for Doubles {
    fn parse(&self, text: &str) -> u64 {
        text.parse::<f64>().unwrap().to_bits()
    }

    fn format(&self, value: u64) -> String {
        f64::from_bits(value).to_string()
    }

    fn negate(&self, value: u64) -> u64 {
        (-f64::from_bits(value)).to_bits()
    }

    fn sum(&self, left: u64, right: u64) -> u64 {
        (f64::from_bits(left) + f64::from_bits(right)).to_bits()
    }

    fn difference(&self, left: u64, right: u64) -> u64 {
        (f64::from_bits(left) - f64::from_bits(right)).to_bits()
    }

    fn product(&self, left: u64, right: u64) -> u64 {
        (f64::from_bits(left) * f64::from_bits(right)).to_bits()
    }

    fn quotient(&self, left: u64, right: u64) -> u64 {
        (f64::from_bits(left) / f64::from_bits(right)).to_bits()
    }

    fn greater(&self, left: u64, right: u64) -> bool {
        f64::from_bits(left) > f64::from_bits(right)
    }

    fn greater_equal(&self, left: u64, right: u64) -> bool {
        f64::from_bits(left) >= f64::from_bits(right)
    }

    fn less(&self, left: u64, right: u64) -> bool {
        f64::from_bits(left) < f64::from_bits(right)
    }

    fn less_equal(&self, left: u64, right: u64) -> bool {
        f64::from_bits(left) <= f64::from_bits(right)
    }

    fn equal(&self, left: u64, right: u64) -> bool {
        f64::from_bits(left) == f64::from_bits(right)
    }

    fn not_equal(&self, left: u64, right: u64) -> bool {
        f64::from_bits(left) != f64::from_bits(right)
    }
}

fn scan(source: &str) -> (Result<(), Error>, Vec<Token>, Vec<Error>) {
    let mut scanner = Scanner::new(source.to_string());
    let result = scanner.scan_tokens(&Doubles);
    let errors = scanner.errors().clone();
    (result, scanner.into_tokens(), errors)
}

fn tokens(source: &str) -> Vec<Token> {
    let (result, tokens, errors) = scan(source);
    assert_eq!(result, Ok(()));
    assert_eq!(errors, vec![]);
    tokens
}

fn kinds(source: &str) -> Vec<TokenType> {
    tokens(source).iter().map(|token| token.token_type).collect()
}

fn number(value: f64) -> Option<LiteralType> {
    Some(LiteralType::LNumber(value.to_bits()))
}

#[test]
fn an_empty_source_has_only_the_end_token() {
    assert_eq!(tokens(""), vec![Token::new(TokenType::EOF, String::new(), None, 1)]);
}

#[test]
fn single_characters_are_tokens() {
    assert_eq!(
        kinds("(){},.-+;*/"),
        vec![
            TokenType::LeftParen,
            TokenType::RightParen,
            TokenType::LeftBrace,
            TokenType::RightBrace,
            TokenType::Comma,
            TokenType::Dot,
            TokenType::Minus,
            TokenType::Plus,
            TokenType::Semicolon,
            TokenType::Star,
            TokenType::Slash,
            TokenType::EOF,
        ],
    );
}

#[test]
fn two_character_operators_are_matched_first() {
    assert_eq!(
        kinds("! != = == < <= > >="),
        vec![
            TokenType::Bang,
            TokenType::BangEqual,
            TokenType::Equal,
            TokenType::EqualEqual,
            TokenType::Less,
            TokenType::LessEqual,
            TokenType::Greater,
            TokenType::GreaterEqual,
            TokenType::EOF,
        ],
    );
    assert_eq!(
        kinds("===!=="),
        vec![TokenType::EqualEqual, TokenType::Equal, TokenType::BangEqual, TokenType::Equal, TokenType::EOF],
    );
    assert_eq!(tokens("<=")[0].lexeme, "<=");
    assert_eq!(kinds("!"), vec![TokenType::Bang, TokenType::EOF]);
}

#[test]
fn a_comment_runs_to_the_end_of_its_line() {
    assert_eq!(kinds("1 // 2 3\n4"), vec![TokenType::Number, TokenType::Number, TokenType::EOF]);
    assert_eq!(kinds("// only a comment"), vec![TokenType::EOF]);
    assert_eq!(kinds("/ /"), vec![TokenType::Slash, TokenType::Slash, TokenType::EOF]);
    assert_eq!(tokens("//\n//\n;")[0].line, 3);
}

#[test]
fn white_space_is_skipped_and_lines_are_counted() {
    let found = tokens(" \t\r1\n\n  2 3\n");
    assert_eq!(found.len(), 4);
    assert_eq!(found[0].line, 1);
    assert_eq!(found[1].line, 3);
    assert_eq!(found[2].line, 3);
    assert_eq!(found[3], Token::new(TokenType::EOF, String::new(), None, 4));
}

#[test]
fn a_string_literal_holds_its_text_without_quotes() {
    assert_eq!(
        tokens("\"hello\""),
        vec![
            Token::new(
                TokenType::StringLiteral,
                "\"hello\"".to_string(),
                Some(LiteralType::LString("hello".to_string())),
                1,
            ),
            Token::new(TokenType::EOF, String::new(), None, 1),
        ],
    );
    assert_eq!(tokens("\"\"")[0].literal, Some(LiteralType::LString(String::new())));
    assert_eq!(tokens("\"héllo // wörld\"")[0].literal, Some(LiteralType::LString("héllo // wörld".to_string())));
}

#[test]
fn a_string_literal_over_lines_is_on_its_last_line() {
    let found = tokens("\"a\nb\nc\" x");
    assert_eq!(found[0].literal, Some(LiteralType::LString("a\nb\nc".to_string())));
    assert_eq!(found[0].line, 3);
    assert_eq!(found[1].line, 3);
}

#[test]
fn an_unterminated_string_is_an_error_where_scanning_stopped() {
    let (result, found, errors) = scan("1 \"open\nstill open\n");
    assert_eq!(result, Err(Error::ScannerError(3, "Unterminated string.".to_string())));
    assert_eq!(errors, vec![Error::ScannerError(3, "Unterminated string.".to_string())]);
    assert_eq!(
        found,
        vec![
            Token::new(TokenType::Number, "1".to_string(), number(1.0), 1),
            Token::new(TokenType::EOF, String::new(), None, 3),
        ],
    );
}

#[test]
fn a_number_literal_is_digits_with_an_optional_fraction() {
    assert_eq!(
        tokens("12 3.25 007"),
        vec![
            Token::new(TokenType::Number, "12".to_string(), number(12.0), 1),
            Token::new(TokenType::Number, "3.25".to_string(), number(3.25), 1),
            Token::new(TokenType::Number, "007".to_string(), number(7.0), 1),
            Token::new(TokenType::EOF, String::new(), None, 1),
        ],
    );
}

#[test]
fn a_trailing_dot_is_not_part_of_a_number() {
    assert_eq!(
        tokens("1."),
        vec![
            Token::new(TokenType::Number, "1".to_string(), number(1.0), 1),
            Token::new(TokenType::Dot, ".".to_string(), None, 1),
            Token::new(TokenType::EOF, String::new(), None, 1),
        ],
    );
    assert_eq!(kinds(".5"), vec![TokenType::Dot, TokenType::Number, TokenType::EOF]);
    assert_eq!(
        kinds("1.2.3"),
        vec![TokenType::Number, TokenType::Dot, TokenType::Number, TokenType::EOF],
    );
    assert_eq!(kinds("1.x"), vec![TokenType::Number, TokenType::Dot, TokenType::Identifier, TokenType::EOF]);
}

#[test]
fn an_identifier_is_letters_and_underscores() {
    assert_eq!(
        tokens("_name Other_"),
        vec![
            Token::new(TokenType::Identifier, "_name".to_string(), None, 1),
            Token::new(TokenType::Identifier, "Other_".to_string(), None, 1),
            Token::new(TokenType::EOF, String::new(), None, 1),
        ],
    );
}

#[test]
fn a_digit_ends_an_identifier() {
    assert_eq!(
        tokens("x1"),
        vec![
            Token::new(TokenType::Identifier, "x".to_string(), None, 1),
            Token::new(TokenType::Number, "1".to_string(), number(1.0), 1),
            Token::new(TokenType::EOF, String::new(), None, 1),
        ],
    );
    assert_eq!(kinds("1x"), vec![TokenType::Number, TokenType::Identifier, TokenType::EOF]);
}

#[test]
fn keywords_are_recognized() {
    assert_eq!(
        kinds("and class else false for fun if nil or print return super this true var while"),
        vec![
            TokenType::And,
            TokenType::Class,
            TokenType::Else,
            TokenType::False,
            TokenType::For,
            TokenType::Fun,
            TokenType::If,
            TokenType::Nil,
            TokenType::Or,
            TokenType::Print,
            TokenType::Return,
            TokenType::Super,
            TokenType::This,
            TokenType::True,
            TokenType::Var,
            TokenType::While,
            TokenType::EOF,
        ],
    );
}

#[test]
fn a_word_is_a_keyword_only_as_a_whole_and_in_lower_case() {
    assert_eq!(
        kinds("printer Print va nil_ orand"),
        vec![
            TokenType::Identifier,
            TokenType::Identifier,
            TokenType::Identifier,
            TokenType::Identifier,
            TokenType::Identifier,
            TokenType::EOF,
        ],
    );
    assert!(tokens("print")[0].literal.is_none());
}

#[test]
fn scanning_goes_on_after_an_unexpected_character() {
    let (result, found, errors) = scan("1 @ 2\n# 3 ü");
    assert_eq!(result, Err(Error::ScannerError(1, "Unexpected character".to_string())));
    assert_eq!(
        errors,
        vec![
            Error::ScannerError(1, "Unexpected character".to_string()),
            Error::ScannerError(2, "Unexpected character".to_string()),
            Error::ScannerError(2, "Unexpected character".to_string()),
        ],
    );
    assert_eq!(
        found.iter().map(|token| token.lexeme.as_str()).collect::<Vec<_>>(),
        vec!["1", "2", "3", ""],
    );
    assert_eq!(found[3], Token::new(TokenType::EOF, String::new(), None, 2));
}

#[test]
fn the_end_token_is_on_the_last_line() {
    assert_eq!(tokens("1\n2\n\n").last().unwrap().line, 4);
    assert_eq!(tokens("1\n2").last().unwrap().line, 2);
}

#[test]
fn the_scanner_knows_when_it_is_at_the_end() {
    let mut scanner = Scanner::new("1".to_string());
    assert!(!scanner.is_at_end());
    assert_eq!(scanner.tokens().len(), 0);
    assert_eq!(scanner.scan_tokens(&Doubles), Ok(()));
    assert!(scanner.is_at_end());
    assert_eq!(scanner.tokens().len(), 2);
    assert!(Scanner::new(String::new()).is_at_end());
}

#[test]
fn a_token_gives_its_text() {
    assert_eq!(tokens("while")[0].text(), "while");
    assert_eq!(tokens("1.50")[0].text(), "1.50");
    let copy = tokens("\"s\"")[0].clone();
    assert_eq!(copy, tokens("\"s\"")[0]);
}
