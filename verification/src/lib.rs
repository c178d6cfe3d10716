//! A scanner, parser and tree-walking evaluator for a small dynamically
//! typed expression language.
//!
//! A run goes from source text to tokens ([`scanner`]), from tokens to
//! statements ([`parser`]) and from statements to effects
//! ([`interpreter`]): variables change and lines are written.  Each stage
//! can fail with a line-tagged error ([`errors`]).  [`run`] takes one piece
//! of source text through all three.

pub mod ast;
pub mod ast_printer;
pub mod environment;
pub mod errors;
pub mod interpreter;
pub mod numbers;
pub mod parser;
pub mod scanner;
pub mod strings;

pub use crate::scanner::token::{LiteralType, Token};
pub use crate::scanner::token_type::TokenType;
pub use crate::scanner::Scanner;

use crate::errors::{lexical, Diagnostic, LoxResult};
use crate::interpreter::{interprets, outcome_of, Executed, Interpreter, State};
use crate::numbers::Numbers;
use crate::parser::{program, Parser};
use crate::scanner::token::TokenView;
use crate::scanner::{added_part, scan, scan_errors, tokens_match};
use vstd::prelude::*;

verus! {

/// Marks `tokens` as the tokens of a source text.
pub open spec fn scanned_as(tokens: Seq<TokenView>) -> bool {
    true
}

/// What a run makes of the tokens of its source: a syntax error ends it
/// before anything is executed, and else its statements are interpreted.
pub open spec fn runs_tokens<N: Numbers>(
    numbers: &N,
    tokens: Seq<TokenView>,
    before: State,
    outcome: Executed,
    after: State,
) -> bool {
    match program(tokens, 0) {
        Ok(statements) => interprets(numbers, statements, before, outcome, after),
        Err(reason) => outcome == Err::<(), Diagnostic>(reason.error) && after == before,
    }
}

/// `outcome` and `after` are a possible outcome of running `source` in the
/// state `before`, and the state after it.  A source with a lexical error
/// fails with the first one, and nothing of it is executed; else its tokens
/// are parsed and, where that succeeds, interpreted.
pub open spec fn runs<N: Numbers>(
    numbers: &N,
    source: Seq<char>,
    before: State,
    outcome: Executed,
    after: State,
) -> bool {
    let faults = scan_errors(source, 0, 1);
    if faults.len() > 0 {
        &&& after == before
        &&& outcome matches Err(error)
        &&& error.line == faults[0].line
        &&& error == lexical(error.line, faults[0].message)
    } else {
        exists|tokens: Seq<TokenView>|
            #![trigger scanned_as(tokens)]
            {
                &&& scanned_as(tokens)
                &&& tokens_match(numbers, scan(source, 0, 1), tokens)
                &&& runs_tokens(numbers, tokens, before, outcome, after)
            }
    }
}

/// Runs one piece of source text: scans it, parses it and interprets its
/// statements with `interpreter`, which keeps its variables from one run to
/// the next and collects the lines written.
pub fn run<N: Numbers>(source: String, interpreter: &mut Interpreter, numbers: &N) -> (result: LoxResult<()>)
    requires
        source@.len() < usize::MAX,
    ensures
        runs(numbers, source@, old(interpreter).state(), outcome_of(result), final(interpreter).state()),
{
    let mut scanner: Scanner = Scanner::new(source);
    let ghost fresh = scanner;

    match scanner.scan_tokens(numbers) {
        Ok(_) => {},
        Err(error) => {
            proof {
                let found = added_part(fresh.diagnostics(), scanner.diagnostics());
                assert(found =~= scanner.diagnostics());
                assert(found[0] == scanner.diagnostics()[0]);
            }
            return Err(error);
        },
    }
    proof {
        assert(added_part(fresh.found(), scanner.found()) =~= scanner.found());
    }

    let tokens = scanner.into_tokens();
    proof {
        assert(scanned_as(tokens.deep_view()));
    }
    let mut parser = Parser::new(tokens);

    let statements = match parser.parse() {
        Ok(statements) => statements,
        Err(error) => {
            return Err(error);
        },
    };

    interpreter.interpret(statements, numbers)
}

} // verus!
