//! Tokens and the values of the language.

use crate::numbers::{compares, computes, formats, Numbers};
use crate::scanner::token_type::TokenType;
use vstd::prelude::*;

verus! {

/// Message of the type error for a left operand that is no number.
pub const LEFT_NOT_NUMBER: &'static str = "Could not perform operation (left is not number)";

/// Message of the type error for a right operand that is no number.
pub const RIGHT_NOT_NUMBER: &'static str = "Could not perform operation (right is not number)";

/// Message of the type error for a number added to something else.
pub const ADD_TO_NUMBER: &'static str = "cannot add a number and a different thing";

/// Message of the type error for a string joined to something else.
pub const CONCAT_TO_STRING: &'static str = "cannot concat a string and a different thing";

/// Message of the type error for `+` on a left operand that is neither a
/// number nor a string.
pub const NOT_ADDABLE: &'static str = "dunno what you're trying to sum/concat but it won't work";

/// A literal of the source text and, alike, a value at run time.
///
/// A number is held as the 64 bits of its IEEE-754 encoding.
#[derive(Debug, PartialEq)]
pub enum LiteralType {
    LString(String),
    LNumber(u64),
    LBoolean(bool),
    LNil,
}

/// What a [`LiteralType`] stands for.
pub enum Literal {
    Text(Seq<char>),
    Number(u64),
    Boolean(bool),
    Nil,
}

impl View for LiteralType {
    type V = Literal;

    open spec fn view(&self) -> Literal {
        match self {
            LiteralType::LString(text) => Literal::Text(text@),
            LiteralType::LNumber(bits) => Literal::Number(*bits),
            LiteralType::LBoolean(truth) => Literal::Boolean(*truth),
            LiteralType::LNil => Literal::Nil,
        }
    }
}

impl DeepView for LiteralType {
    type V = Literal;

    open spec fn deep_view(&self) -> Literal {
        self@
    }
}

impl Clone for LiteralType {
    fn clone(&self) -> (copy: Self)
        ensures
            copy@ == self@,
    {
        match self {
            LiteralType::LString(text) => LiteralType::LString(text.clone()),
            LiteralType::LNumber(bits) => LiteralType::LNumber(*bits),
            LiteralType::LBoolean(truth) => LiteralType::LBoolean(*truth),
            LiteralType::LNil => LiteralType::LNil,
        }
    }
}

/// The outcome of an operation on values: a value, or the message of a type
/// error.
pub type Outcome = Result<Literal, Seq<char>>;

/// What the result of an operation on values stands for.
pub open spec fn outcome_of(result: Result<LiteralType, String>) -> Outcome {
    match result {
        Ok(value) => Ok(value@),
        Err(message) => Err(message@),
    }
}

/// The two numbers of a pair of operands, or the message that says which of
/// them is no number; the left one is looked at first.
pub open spec fn number_operands(left: Literal, right: Literal) -> Result<(u64, u64), Seq<char>> {
    match left {
        Literal::Number(a) => match right {
            Literal::Number(b) => Ok((a, b)),
            _ => Err(RIGHT_NOT_NUMBER@),
        },
        _ => Err(LEFT_NOT_NUMBER@),
    }
}

/// `outcome` is a possible outcome of comparing `left` and `right` with
/// `operator`: a type error unless both are numbers, else a boolean that
/// `numbers` answers.
pub open spec fn compared<N: Numbers>(
    numbers: &N,
    operator: TokenType,
    left: Literal,
    right: Literal,
    outcome: Outcome,
) -> bool {
    match number_operands(left, right) {
        Ok((a, b)) => outcome matches Ok(Literal::Boolean(truth)) && compares(
            numbers,
            operator,
            a,
            b,
            truth,
        ),
        Err(message) => outcome == Err::<Literal, Seq<char>>(message),
    }
}

/// `outcome` is a possible outcome of applying the arithmetic `operator` to
/// `left` and `right`: a type error unless both are numbers, else a number
/// that `numbers` answers.
pub open spec fn computed<N: Numbers>(
    numbers: &N,
    operator: TokenType,
    left: Literal,
    right: Literal,
    outcome: Outcome,
) -> bool {
    match number_operands(left, right) {
        Ok((a, b)) => outcome matches Ok(Literal::Number(value)) && computes(
            numbers,
            operator,
            a,
            b,
            value,
        ),
        Err(message) => outcome == Err::<Literal, Seq<char>>(message),
    }
}

/// `outcome` is a possible outcome of `left + right`: the sum that `numbers`
/// answers for two numbers, the concatenation of two strings, and a type
/// error for every other pair.
pub open spec fn added<N: Numbers>(numbers: &N, left: Literal, right: Literal, outcome: Outcome) -> bool {
    match left {
        Literal::Number(a) => match right {
            Literal::Number(b) => outcome matches Ok(Literal::Number(value)) && computes(
                numbers,
                TokenType::Plus,
                a,
                b,
                value,
            ),
            _ => outcome == Err::<Literal, Seq<char>>(ADD_TO_NUMBER@),
        },
        Literal::Text(a) => match right {
            Literal::Text(b) => outcome == Ok::<Literal, Seq<char>>(Literal::Text(a + b)),
            _ => outcome == Err::<Literal, Seq<char>>(CONCAT_TO_STRING@),
        },
        _ => outcome == Err::<Literal, Seq<char>>(NOT_ADDABLE@),
    }
}

/// `text` without its last two characters where these are `.0`, else `text`.
pub open spec fn without_trailing_zero(text: Seq<char>) -> Seq<char> {
    if text.len() >= 2 && text[text.len() - 2] == '.' && text[text.len() - 1] == '0' {
        text.subrange(0, text.len() - 2)
    } else {
        text
    }
}

/// `text` is a possible rendering of `value`: `nil`, `true` or `false`, a
/// string itself, and for a number the decimal text that `numbers` answers,
/// without a trailing `.0`.
pub open spec fn stringified<N: Numbers>(numbers: &N, value: Literal, text: Seq<char>) -> bool {
    match value {
        Literal::Nil => text == "nil"@,
        Literal::Text(content) => text == content,
        Literal::Boolean(truth) => text == if truth {
            "true"@
        } else {
            "false"@
        },
        Literal::Number(bits) => number_stringified(numbers, bits, text),
    }
}

/// `text` is a possible rendering of the number `bits`: the decimal text that
/// `numbers` answers, without a trailing `.0`.
pub open spec fn number_stringified<N: Numbers>(numbers: &N, bits: u64, text: Seq<char>) -> bool {
    exists|decimal: Seq<char>|
        #![trigger formats(numbers, bits, decimal)]
        formats(numbers, bits, decimal) && text == without_trailing_zero(decimal)
}

/// Drops a trailing `.0` from the decimal text of a number.
pub fn strip_trailing_zero(text: String) -> (stripped: String)
    ensures
        stripped@ == without_trailing_zero(text@),
{
    let length = text.as_str().unicode_len();
    if length >= 2 && text.as_str().get_char(length - 2) == '.' && text.as_str().get_char(
        length - 1,
    ) == '0' {
        text.as_str().substring_char(0, length - 2).to_owned()
    } else {
        text
    }
}

impl LiteralType {
    /// The text that `print` writes for this value.
    pub fn stringify<N: Numbers>(&self, numbers: &N) -> (text: String)
        ensures
            stringified(numbers, self@, text@),
    {
        match self {
            LiteralType::LNil => "nil".to_owned(),
            LiteralType::LString(content) => content.clone(),
            LiteralType::LBoolean(truth) => if *truth {
                "true".to_owned()
            } else {
                "false".to_owned()
            },
            LiteralType::LNumber(bits) => {
                let decimal = numbers.format(*bits);
                let ghost shown = decimal@;
                let text = strip_trailing_zero(decimal);
                assert(formats(numbers, *bits, shown));
                assert(number_stringified(numbers, *bits, text@));
                text
            },
        }
    }

    /// `self > other`, for two numbers.
    pub fn greater<N: Numbers>(self, other: LiteralType, numbers: &N) -> (result: Result<
        LiteralType,
        String,
    >)
        ensures
            compared(numbers, TokenType::Greater, self@, other@, outcome_of(result)),
    {
        match self.get_number_operands(other) {
            Ok((left, right)) => Ok(LiteralType::LBoolean(numbers.greater(left, right))),
            Err(message) => Err(message),
        }
    }

    /// `self >= other`, for two numbers.
    pub fn greater_equal<N: Numbers>(self, other: LiteralType, numbers: &N) -> (result: Result<
        LiteralType,
        String,
    >)
        ensures
            compared(numbers, TokenType::GreaterEqual, self@, other@, outcome_of(result)),
    {
        match self.get_number_operands(other) {
            Ok((left, right)) => Ok(LiteralType::LBoolean(numbers.greater_equal(left, right))),
            Err(message) => Err(message),
        }
    }

    /// `self < other`, for two numbers.
    pub fn less<N: Numbers>(self, other: LiteralType, numbers: &N) -> (result: Result<
        LiteralType,
        String,
    >)
        ensures
            compared(numbers, TokenType::Less, self@, other@, outcome_of(result)),
    {
        match self.get_number_operands(other) {
            Ok((left, right)) => Ok(LiteralType::LBoolean(numbers.less(left, right))),
            Err(message) => Err(message),
        }
    }

    /// `self <= other`, for two numbers.
    pub fn less_equal<N: Numbers>(self, other: LiteralType, numbers: &N) -> (result: Result<
        LiteralType,
        String,
    >)
        ensures
            compared(numbers, TokenType::LessEqual, self@, other@, outcome_of(result)),
    {
        match self.get_number_operands(other) {
            Ok((left, right)) => Ok(LiteralType::LBoolean(numbers.less_equal(left, right))),
            Err(message) => Err(message),
        }
    }

    /// `self == other`, for two numbers.
    pub fn equal<N: Numbers>(self, other: LiteralType, numbers: &N) -> (result: Result<
        LiteralType,
        String,
    >)
        ensures
            compared(numbers, TokenType::EqualEqual, self@, other@, outcome_of(result)),
    {
        match self.get_number_operands(other) {
            Ok((left, right)) => Ok(LiteralType::LBoolean(numbers.equal(left, right))),
            Err(message) => Err(message),
        }
    }

    /// `self != other`, for two numbers.
    pub fn not_equal<N: Numbers>(self, other: LiteralType, numbers: &N) -> (result: Result<
        LiteralType,
        String,
    >)
        ensures
            compared(numbers, TokenType::BangEqual, self@, other@, outcome_of(result)),
    {
        match self.get_number_operands(other) {
            Ok((left, right)) => Ok(LiteralType::LBoolean(numbers.not_equal(left, right))),
            Err(message) => Err(message),
        }
    }

    /// The bits of both operands, where both are numbers.
    pub fn get_number_operands(self, other: LiteralType) -> (result: Result<(u64, u64), String>)
        ensures
            match number_operands(self@, other@) {
                Ok(pair) => result == Ok::<(u64, u64), String>(pair),
                Err(message) => result matches Err(text) && text@ == message,
            },
    {
        let left = match self {
            LiteralType::LNumber(bits) => bits,
            _ => {
                return Err(LEFT_NOT_NUMBER.to_owned());
            },
        };
        let right = match other {
            LiteralType::LNumber(bits) => bits,
            _ => {
                return Err(RIGHT_NOT_NUMBER.to_owned());
            },
        };
        Ok((left, right))
    }

    /// `self - other`, for two numbers.
    pub fn sub<N: Numbers>(self, other: LiteralType, numbers: &N) -> (result: Result<
        LiteralType,
        String,
    >)
        ensures
            computed(numbers, TokenType::Minus, self@, other@, outcome_of(result)),
    {
        match self.get_number_operands(other) {
            Ok((left, right)) => Ok(LiteralType::LNumber(numbers.difference(left, right))),
            Err(message) => Err(message),
        }
    }

    /// `self / other`, for two numbers.
    pub fn div<N: Numbers>(self, other: LiteralType, numbers: &N) -> (result: Result<
        LiteralType,
        String,
    >)
        ensures
            computed(numbers, TokenType::Slash, self@, other@, outcome_of(result)),
    {
        match self.get_number_operands(other) {
            Ok((left, right)) => Ok(LiteralType::LNumber(numbers.quotient(left, right))),
            Err(message) => Err(message),
        }
    }

    /// `self * other`, for two numbers.
    pub fn mul<N: Numbers>(self, other: LiteralType, numbers: &N) -> (result: Result<
        LiteralType,
        String,
    >)
        ensures
            computed(numbers, TokenType::Star, self@, other@, outcome_of(result)),
    {
        match self.get_number_operands(other) {
            Ok((left, right)) => Ok(LiteralType::LNumber(numbers.product(left, right))),
            Err(message) => Err(message),
        }
    }

    /// `self + other`: the sum of two numbers, or two strings joined.
    pub fn add<N: Numbers>(self, other: LiteralType, numbers: &N) -> (result: Result<
        LiteralType,
        String,
    >)
        ensures
            added(numbers, self@, other@, outcome_of(result)),
    {
        match self {
            LiteralType::LNumber(left) => match other {
                LiteralType::LNumber(right) => Ok(LiteralType::LNumber(numbers.sum(left, right))),
                _ => Err(ADD_TO_NUMBER.to_owned()),
            },
            LiteralType::LString(left) => match other {
                LiteralType::LString(right) => Ok(LiteralType::LString(left.concat(right.as_str()))),
                _ => Err(CONCAT_TO_STRING.to_owned()),
            },
            _ => Err(NOT_ADDABLE.to_owned()),
        }
    }
}

/// A lexical unit of the source text.
#[derive(Debug, PartialEq)]
pub struct Token {
    pub token_type: TokenType,
    pub lexeme: String,
    pub literal: Option<LiteralType>,
    pub line: usize,
}

/// What a [`Token`] stands for.
pub struct TokenView {
    pub kind: TokenType,
    pub lexeme: Seq<char>,
    pub literal: Option<Literal>,
    pub line: usize,
}

impl View for Token {
    type V = TokenView;

    open spec fn view(&self) -> TokenView {
        TokenView {
            kind: self.token_type,
            lexeme: self.lexeme@,
            literal: match self.literal {
                Some(value) => Some(value@),
                None => None,
            },
            line: self.line,
        }
    }
}

impl DeepView for Token {
    type V = TokenView;

    open spec fn deep_view(&self) -> TokenView {
        self@
    }
}

impl Clone for Token {
    fn clone(&self) -> (copy: Self)
        ensures
            copy@ == self@,
    {
        Token {
            token_type: self.token_type,
            lexeme: self.lexeme.clone(),
            literal: match &self.literal {
                Some(value) => Some(value.clone()),
                None => None,
            },
            line: self.line,
        }
    }
}

impl Token {
    /// A token of the given kind, text, literal value and line.
    pub fn new(token_type: TokenType, lexeme: String, literal: Option<LiteralType>, line: usize) -> (token:
        Self)
        ensures
            token.token_type == token_type,
            token.lexeme == lexeme,
            token.literal == literal,
            token.line == line,
    {
        Token { token_type, lexeme, literal, line }
    }

    /// The source text of the token.
    pub fn text(&self) -> (text: String)
        ensures
            text@ == self@.lexeme,
    {
        self.lexeme.clone()
    }
}

} // verus!
