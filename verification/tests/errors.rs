use rlox::errors::{decimal_text, error, Error};

#[test]
fn a_report_shows_line_kind_and_message() {
    let lexical = error(12, "Unexpected character");
    assert_eq!(lexical, Error::ScannerError(12, "Unexpected character".to_string()));
    assert_eq!(lexical.report(), "[line 12] LexicalError: Unexpected character");
    let syntax = Error::ParseError(3, "Expect expression".to_string());
    assert_eq!(syntax.report(), "[line 3] SyntaxError: Expect expression");
    let runtime = Error::RuntimeError(1000, "Undefined variable y.".to_string());
    assert_eq!(runtime.report(), "[line 1000] RuntimeError: Undefined variable y.");
}

#[test]
fn an_error_gives_its_line_and_message() {
    let syntax = Error::ParseError(3, "Expect expression".to_string());
    assert_eq!(syntax.line(), 3);
    assert_eq!(syntax.message(), "Expect expression");
    assert_eq!(error(0, "").line(), 0);
    assert_eq!(error(0, "").message(), "");
    assert_eq!(syntax.clone(), syntax);
}

#[test]
fn numbers_are_written_in_decimal() {
    assert_eq!(decimal_text(0), "0");
    assert_eq!(decimal_text(7), "7");
    assert_eq!(decimal_text(10), "10");
    assert_eq!(decimal_text(909), "909");
    assert_eq!(decimal_text(1234567890), "1234567890");
    assert_eq!(decimal_text(usize::MAX), usize::MAX.to_string());
}
