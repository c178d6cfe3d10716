//! The arithmetic of the language's numbers.
//!
//! A number of the language is an IEEE-754 double.  The library never looks
//! inside one: it carries each number as the 64 bits of its encoding and asks
//! an implementation of [`Numbers`] for every conversion, operation and
//! comparison.  Everything the library proves holds whatever the
//! implementation answers.

use crate::scanner::token_type::TokenType;
use vstd::prelude::*;

verus! {

/// Conversions, operations and comparisons on numbers held as bit patterns.
pub trait Numbers {
    /// The number that a decimal literal (digits, optionally a dot and more
    /// digits) denotes.
    fn parse(&self, text: &str) -> u64;

    /// The decimal text of a number.
    fn format(&self, value: u64) -> String;

    /// The number with its sign flipped.
    fn negate(&self, value: u64) -> u64;

    /// `left + right`.
    fn sum(&self, left: u64, right: u64) -> u64;

    /// `left - right`.
    fn difference(&self, left: u64, right: u64) -> u64;

    /// `left * right`.
    fn product(&self, left: u64, right: u64) -> u64;

    /// `left / right`.
    fn quotient(&self, left: u64, right: u64) -> u64;

    /// `left > right`.
    fn greater(&self, left: u64, right: u64) -> bool;

    /// `left >= right`.
    fn greater_equal(&self, left: u64, right: u64) -> bool;

    /// `left < right`.
    fn less(&self, left: u64, right: u64) -> bool;

    /// `left <= right`.
    fn less_equal(&self, left: u64, right: u64) -> bool;

    /// `left == right`, by numeric value.
    fn equal(&self, left: u64, right: u64) -> bool;

    /// `left != right`, by numeric value.
    fn not_equal(&self, left: u64, right: u64) -> bool;
}

/// `value` is an answer of `numbers` to parsing a literal that reads `text`.
pub open spec fn parses<N: Numbers>(numbers: &N, text: Seq<char>, value: u64) -> bool {
    exists|literal: &str|
        #![trigger call_ensures(N::parse, (numbers, literal), value)]
        literal@ == text && call_ensures(N::parse, (numbers, literal), value)
}

/// `text` is what an answer of `numbers` to formatting `value` reads.
pub open spec fn formats<N: Numbers>(numbers: &N, value: u64, text: Seq<char>) -> bool {
    exists|answer: String|
        #![trigger call_ensures(N::format, (numbers, value), answer)]
        answer@ == text && call_ensures(N::format, (numbers, value), answer)
}

/// `value` is an answer of `numbers` to negating `operand`.
pub open spec fn negates<N: Numbers>(numbers: &N, operand: u64, value: u64) -> bool {
    call_ensures(N::negate, (numbers, operand), value)
}

/// `value` is an answer of `numbers` to applying the arithmetic `operator` to
/// `left` and `right`.  No value answers for a token that is no arithmetic
/// operator.
pub open spec fn computes<N: Numbers>(
    numbers: &N,
    operator: TokenType,
    left: u64,
    right: u64,
    value: u64,
) -> bool {
    match operator {
        TokenType::Plus => call_ensures(N::sum, (numbers, left, right), value),
        TokenType::Minus => call_ensures(N::difference, (numbers, left, right), value),
        TokenType::Star => call_ensures(N::product, (numbers, left, right), value),
        TokenType::Slash => call_ensures(N::quotient, (numbers, left, right), value),
        _ => false,
    }
}

/// `truth` is an answer of `numbers` to comparing `left` and `right` with
/// `operator`.  No truth answers for a token that is no comparison.
pub open spec fn compares<N: Numbers>(
    numbers: &N,
    operator: TokenType,
    left: u64,
    right: u64,
    truth: bool,
) -> bool {
    match operator {
        TokenType::Greater => call_ensures(N::greater, (numbers, left, right), truth),
        TokenType::GreaterEqual => call_ensures(N::greater_equal, (numbers, left, right), truth),
        TokenType::Less => call_ensures(N::less, (numbers, left, right), truth),
        TokenType::LessEqual => call_ensures(N::less_equal, (numbers, left, right), truth),
        TokenType::EqualEqual => call_ensures(N::equal, (numbers, left, right), truth),
        TokenType::BangEqual => call_ensures(N::not_equal, (numbers, left, right), truth),
        _ => false,
    }
}

} // verus!
