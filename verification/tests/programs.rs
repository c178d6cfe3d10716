use rlox::errors::Error;
use rlox::interpreter::Interpreter;
use rlox::numbers::Numbers;
use rlox::run;

struct Doubles;

impl Numbers for Doubles {
    fn parse(&self, text: &str) -> u64 {
        text.parse::<f64>().unwrap().to_bits()
    }

    fn format(&self, value: u64) -> String {
        f64::from_bits(value).to_string()
    }

    fn negate(&self, value: u64) -> u64 {
        (-f64::from_bits(value)).to_bits()
    }

    fn sum(&self, left: u64, right: u64) -> u64 {
        (f64::from_bits(left) + f64::from_bits(right)).to_bits()
    }

    fn difference(&self, left: u64, right: u64) -> u64 {
        (f64::from_bits(left) - f64::from_bits(right)).to_bits()
    }

    fn product(&self, left: u64, right: u64) -> u64 {
        (f64::from_bits(left) * f64::from_bits(right)).to_bits()
    }

    fn quotient(&self, left: u64, right: u64) -> u64 {
        (f64::from_bits(left) / f64::from_bits(right)).to_bits()
    }

    fn greater(&self, left: u64, right: u64) -> bool {
        f64::from_bits(left) > f64::from_bits(right)
    }

    fn greater_equal(&self, left: u64, right: u64) -> bool {
        f64::from_bits(left) >= f64::from_bits(right)
    }

    fn less(&self, left: u64, right: u64) -> bool {
        f64::from_bits(left) < f64::from_bits(right)
    }

    fn less_equal(&self, left: u64, right: u64) -> bool {
        f64::from_bits(left) <= f64::from_bits(right)
    }

    fn equal(&self, left: u64, right: u64) -> bool {
        f64::from_bits(left) == f64::from_bits(right)
    }

    fn not_equal(&self, left: u64, right: u64) -> bool {
        f64::from_bits(left) != f64::from_bits(right)
    }
}

fn run_fresh(source: &str) -> (Result<(), Error>, Vec<String>) {
    let mut interpreter = Interpreter::new();
    let result = run(source.to_string(), &mut interpreter, &Doubles);
    (result, interpreter.take_output())
}

fn lines(source: &str) -> Vec<String> {
    let (result, output) = run_fresh(source);
    assert_eq!(result, Ok(()));
    output
}

fn failure(source: &str) -> Error {
    let (result, _) = run_fresh(source);
    match result {
        Ok(()) => panic!("{} ran without an error", source),
        Err(error) => error,
    }
}

#[test]
fn multiplication_is_evaluated_before_addition() {
    assert_eq!(lines("print 1 + 2 * 3;"), vec!["7"]);
    assert_eq!(lines("print 1 * 2 + 3;"), vec!["5"]);
    assert_eq!(lines("print 2 * 3 + 4 * 5 - 6 / 2;"), vec!["23"]);
}

#[test]
fn an_expression_statement_evaluates_without_output() {
    assert_eq!(lines("1 + 2 * 3;"), Vec::<String>::new());
}

#[test]
fn operators_of_one_level_associate_to_the_left() {
    assert_eq!(lines("print 10 - 4 - 3;"), vec!["3"]);
    assert_eq!(lines("print 8 / 4 / 2;"), vec!["1"]);
    assert_eq!(lines("print 2 - 3 + 4;"), vec!["3"]);
    assert_eq!(lines("print 12 / 3 * 2;"), vec!["8"]);
}

#[test]
fn parentheses_override_precedence() {
    assert_eq!(lines("print (1 + 2) * 3;"), vec!["9"]);
    assert_eq!(lines("print 10 - (4 - 3);"), vec!["9"]);
    assert_eq!(lines("print ((2));"), vec!["2"]);
}

#[test]
fn arithmetic_is_that_of_doubles() {
    assert_eq!(lines("print 0.1 + 0.2;"), vec!["0.30000000000000004"]);
    assert_eq!(lines("print 1 / 3;"), vec!["0.3333333333333333"]);
    assert_eq!(lines("print 1 / 0;"), vec!["inf"]);
    assert_eq!(lines("print 0 / 0 == 0 / 0;"), vec!["false"]);
}

#[test]
fn unary_minus_binds_tighter_than_addition() {
    assert_eq!(lines("print -1 + 2;"), vec!["1"]);
    assert_eq!(lines("print -(1 + 2);"), vec!["-3"]);
    assert_eq!(lines("print 2 * -3;"), vec!["-6"]);
    assert_eq!(lines("print --4;"), vec!["4"]);
}

#[test]
fn not_binds_tighter_than_comparison() {
    assert_eq!(failure("print !1 < 2;"), Error::RuntimeError(
        1,
        "Could not perform operation (left is not number)".to_string(),
    ));
    assert_eq!(lines("print !(1 < 2);"), vec!["false"]);
}

#[test]
fn strings_are_concatenated() {
    assert_eq!(lines("print \"a\" + \"b\";"), vec!["ab"]);
    assert_eq!(lines("print \"\" + \"\";"), vec![""]);
    assert_eq!(lines("print \"one\" + \" \" + \"two\";"), vec!["one two"]);
}

#[test]
fn nil_and_false_are_falsy() {
    assert_eq!(lines("print !nil;"), vec!["true"]);
    assert_eq!(lines("print !false;"), vec!["true"]);
}

#[test]
fn zero_and_the_empty_string_are_truthy() {
    assert_eq!(lines("print !0;"), vec!["false"]);
    assert_eq!(lines("print !\"\";"), vec!["false"]);
    assert_eq!(lines("print !true;"), vec!["false"]);
    assert_eq!(lines("print !\"text\";"), vec!["false"]);
    assert_eq!(lines("print !!nil;"), vec!["false"]);
}

#[test]
fn a_declared_variable_is_read_back() {
    assert_eq!(lines("var x = 5; print x;"), vec!["5"]);
    assert_eq!(lines("var x = 1; var y = 2; print x + y;"), vec!["3"]);
}

#[test]
fn reading_an_undeclared_variable_fails() {
    assert_eq!(failure("print y;"), Error::RuntimeError(1, "Undefined variable y.".to_string()));
}

#[test]
fn an_assignment_updates_a_declared_variable() {
    let mut interpreter = Interpreter::new();
    assert_eq!(run("var x = 5;".to_string(), &mut interpreter, &Doubles), Ok(()));
    assert_eq!(run("x = 10; print x;".to_string(), &mut interpreter, &Doubles), Ok(()));
    assert_eq!(interpreter.take_output(), vec!["10"]);
    assert_eq!(lines("var x = 5; x = 10; print x;"), vec!["10"]);
}

#[test]
fn assigning_to_an_undeclared_variable_fails_like_reading_it() {
    let assigned = failure("x = 10;");
    let read = failure("x;");
    assert_eq!(assigned, Error::RuntimeError(1, "Undefined variable x.".to_string()));
    assert_eq!(assigned, read);
}

#[test]
fn a_failed_assignment_declares_nothing() {
    let mut interpreter = Interpreter::new();
    assert!(run("x = 10;".to_string(), &mut interpreter, &Doubles).is_err());
    assert_eq!(
        run("print x;".to_string(), &mut interpreter, &Doubles),
        Err(Error::RuntimeError(1, "Undefined variable x.".to_string())),
    );
}

#[test]
fn an_assignment_is_its_value_and_associates_to_the_right() {
    assert_eq!(lines("var a = 1; var b = 2; print a = b = 3; print a; print b;"), vec!["3", "3", "3"]);
}

#[test]
fn a_declaration_without_initializer_leaves_the_name_unbound() {
    assert_eq!(failure("var x; print x;"), Error::RuntimeError(1, "Undefined variable x.".to_string()));
    assert_eq!(failure("var x; x = 1;"), Error::RuntimeError(1, "Undefined variable x.".to_string()));
    assert_eq!(lines("var x = 1; var x; print x;"), vec!["1"]);
}

#[test]
fn a_redeclaration_overwrites() {
    assert_eq!(lines("var x = 1; var x = \"two\"; print x;"), vec!["two"]);
}

#[test]
fn whole_numbers_are_written_without_fraction() {
    assert_eq!(lines("print 6 / 2;"), vec!["3"]);
    assert_eq!(lines("print 7 / 2;"), vec!["3.5"]);
    assert_eq!(lines("print 3.0;"), vec!["3"]);
    assert_eq!(lines("print 2.50;"), vec!["2.5"]);
    assert_eq!(lines("print 100;"), vec!["100"]);
}

#[test]
fn values_are_written_as_text() {
    assert_eq!(lines("print nil; print true; print false; print \"s\";"), vec!["nil", "true", "false", "s"]);
}

#[test]
fn a_syntax_error_is_on_the_line_of_the_offending_token() {
    let (result, output) = run_fresh("1 +;");
    assert_eq!(result, Err(Error::ParseError(1, "Expect expression".to_string())));
    assert_eq!(output, Vec::<String>::new());
    assert_eq!(failure("print 1;\nprint 2\n+;"), Error::ParseError(3, "Expect expression".to_string()));
}

#[test]
fn a_syntax_error_keeps_the_whole_source_from_running() {
    let (result, output) = run_fresh("print 1; print 2; 1 +;");
    assert_eq!(result, Err(Error::ParseError(1, "Expect expression".to_string())));
    assert_eq!(output, Vec::<String>::new());
}

#[test]
fn a_lexical_error_keeps_the_whole_source_from_running() {
    let (result, output) = run_fresh("print 1;\n@ print 2;");
    assert_eq!(result, Err(Error::ScannerError(2, "Unexpected character".to_string())));
    assert_eq!(output, Vec::<String>::new());
    assert_eq!(failure("print \"open"), Error::ScannerError(1, "Unterminated string.".to_string()));
}

#[test]
fn the_first_lexical_error_is_the_one_returned() {
    assert_eq!(failure("#\n\"open"), Error::ScannerError(1, "Unexpected character".to_string()));
}

#[test]
fn a_runtime_error_ends_the_run_and_keeps_what_was_done() {
    let mut interpreter = Interpreter::new();
    let result = run(
        "var x = 1; print x; x = 2;\nprint -\"s\"; print 3; x = 4;".to_string(),
        &mut interpreter,
        &Doubles,
    );
    assert_eq!(
        result,
        Err(Error::RuntimeError(2, "Could not perform operation (operand is not number)".to_string())),
    );
    assert_eq!(interpreter.take_output(), vec!["1"]);
    assert_eq!(run("print x;".to_string(), &mut interpreter, &Doubles), Ok(()));
    assert_eq!(interpreter.take_output(), vec!["2"]);
}

#[test]
fn runs_with_one_interpreter_share_its_variables() {
    let mut interpreter = Interpreter::new();
    assert_eq!(run("var total = 1;".to_string(), &mut interpreter, &Doubles), Ok(()));
    assert_eq!(run("total = total + 1;".to_string(), &mut interpreter, &Doubles), Ok(()));
    assert_eq!(run("print total;".to_string(), &mut interpreter, &Doubles), Ok(()));
    assert_eq!(interpreter.output().len(), 1);
    assert_eq!(interpreter.take_output(), vec!["2"]);
    assert_eq!(interpreter.take_output(), Vec::<String>::new());
}

#[test]
fn comparisons_are_of_numbers() {
    assert_eq!(
        lines("print 1 < 2; print 2 <= 2; print 1 > 2; print 2 >= 3; print 1 == 1; print 1 != 1;"),
        vec!["true", "true", "false", "false", "true", "false"],
    );
    assert_eq!(failure("print 1 < \"2\";"), Error::RuntimeError(
        1,
        "Could not perform operation (right is not number)".to_string(),
    ));
}

#[test]
fn equality_is_of_numbers_only() {
    assert_eq!(failure("print \"a\" == \"a\";"), Error::RuntimeError(
        1,
        "Could not perform operation (left is not number)".to_string(),
    ));
    assert_eq!(failure("print nil != nil;"), Error::RuntimeError(
        1,
        "Could not perform operation (left is not number)".to_string(),
    ));
    assert_eq!(failure("print 1 == true;"), Error::RuntimeError(
        1,
        "Could not perform operation (right is not number)".to_string(),
    ));
}

#[test]
fn addition_is_of_two_numbers_or_two_strings() {
    assert_eq!(failure("print 1 + \"a\";"), Error::RuntimeError(
        1,
        "cannot add a number and a different thing".to_string(),
    ));
    assert_eq!(failure("print \"a\" + 1;"), Error::RuntimeError(
        1,
        "cannot concat a string and a different thing".to_string(),
    ));
    assert_eq!(failure("print nil + 1;"), Error::RuntimeError(
        1,
        "dunno what you're trying to sum/concat but it won't work".to_string(),
    ));
}

#[test]
fn the_left_operand_is_evaluated_first() {
    assert_eq!(failure("print a + b;"), Error::RuntimeError(1, "Undefined variable a.".to_string()));
    assert_eq!(lines("var a = 1; print (a = 2) + a;"), vec!["4"]);
    assert_eq!(failure("var a = 1; print (a = 2) + b;\nprint a;"), Error::RuntimeError(
        1,
        "Undefined variable b.".to_string(),
    ));
}

#[test]
fn comments_and_blank_lines_are_skipped() {
    assert_eq!(lines("// nothing here\n\nprint 1; // one\n// done"), vec!["1"]);
    assert_eq!(lines(""), Vec::<String>::new());
}

#[test]
fn a_string_may_span_lines() {
    assert_eq!(lines("print \"a\nb\";"), vec!["a\nb"]);
    assert_eq!(failure("print \"a\nb\" +;"), Error::ParseError(2, "Expect expression".to_string()));
}
