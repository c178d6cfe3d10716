//! The scanner: source text to tokens.
//!
//! Scanning is a single pass from left to right.  [`step`] says what one
//! step of it does at a position of the source, [`scan`] and [`scan_errors`]
//! say what the whole pass yields from there, and [`Scanner::scan_tokens`]
//! is proved to yield exactly that.

pub mod token;
pub mod token_type;

use crate::errors::{error, lexical, Diagnostic, Error, LoxResult};
use crate::numbers::{parses, Numbers};
use crate::scanner::token::{Literal, LiteralType, Token, TokenView};
use crate::scanner::token_type::TokenType;
use crate::strings::{chars_of, text_of};
use vstd::prelude::*;

verus! {

/// Message of the lexical error for a string without its closing quote.
pub const UNTERMINATED_STRING: &'static str = "Unterminated string.";

/// Message of the lexical error for a character that starts no token.
pub const UNEXPECTED_CHARACTER: &'static str = "Unexpected character";

/// Whether `c` is one of the ten decimal digits.
pub open spec fn is_digit(c: char) -> bool {
    '0' <= c && c <= '9'
}

/// Whether `c` is an ASCII letter or an underscore.
pub open spec fn is_alpha(c: char) -> bool {
    c == '_' || ('a' <= c && c <= 'z') || ('A' <= c && c <= 'Z')
}

/// The kinds of runs of characters that the scanner consumes whole.
pub enum Run {
    /// Decimal digits.
    Digits,
    /// Letters and underscores.
    Letters,
    /// Everything up to the end of the line.
    Comment,
    /// Everything up to a double quote.
    Text,
}

/// Whether a run of the given kind goes on over `c`.
pub open spec fn continues(run: Run, c: char) -> bool {
    match run {
        Run::Digits => is_digit(c),
        Run::Letters => is_alpha(c),
        Run::Comment => c != '\n',
        Run::Text => c != '"',
    }
}

/// The length of the longest run of the given kind that starts at `from`.
pub open spec fn run_len(source: Seq<char>, from: int, run: Run) -> nat
    decreases source.len() - from,
{
    if 0 <= from < source.len() && continues(run, source[from]) {
        1 + run_len(source, from + 1, run)
    } else {
        0
    }
}

/// The number of line feeds in `source` from `from` up to `to`.
pub open spec fn newlines(source: Seq<char>, from: int, to: int) -> nat
    decreases to - from,
{
    if from < to {
        newlines(source, from, to - 1) + if source[to - 1] == '\n' {
            1nat
        } else {
            0nat
        }
    } else {
        0
    }
}

/// The reserved words, each with its token kind.
pub open spec fn keyword_table() -> Seq<(Seq<char>, TokenType)> {
    seq![
        ("and"@, TokenType::And),
        ("class"@, TokenType::Class),
        ("else"@, TokenType::Else),
        ("false"@, TokenType::False),
        ("for"@, TokenType::For),
        ("fun"@, TokenType::Fun),
        ("if"@, TokenType::If),
        ("nil"@, TokenType::Nil),
        ("or"@, TokenType::Or),
        ("print"@, TokenType::Print),
        ("return"@, TokenType::Return),
        ("super"@, TokenType::Super),
        ("this"@, TokenType::This),
        ("true"@, TokenType::True),
        ("var"@, TokenType::Var),
        ("while"@, TokenType::While),
    ]
}

/// The kind of the first entry of `table`, from `from` on, whose word is
/// `text`.
pub open spec fn lookup(table: Seq<(Seq<char>, TokenType)>, text: Seq<char>, from: int) -> Option<
    TokenType,
>
    decreases table.len() - from,
{
    if 0 <= from < table.len() {
        if table[from].0 == text {
            Some(table[from].1)
        } else {
            lookup(table, text, from + 1)
        }
    } else {
        None
    }
}

/// The token kind of a word: that of the keyword it spells, else
/// `Identifier`.
pub open spec fn word_kind(text: Seq<char>) -> TokenType {
    match lookup(keyword_table(), text, 0) {
        Some(kind) => kind,
        None => TokenType::Identifier,
    }
}

/// A word is a keyword or an identifier: never a literal, an operator or the
/// end of input.
pub proof fn word_kind_is_word(text: Seq<char>)
    ensures
        word_kind(text) != TokenType::Number,
        word_kind(text) != TokenType::StringLiteral,
        word_kind(text) != TokenType::EOF,
{
    reveal_with_fuel(lookup, 17);
}

/// What one step of the scanner does.
pub struct Step {
    /// The position after the step.
    pub next: int,
    /// The line after the step; a token or an error of the step is on it.
    pub line: int,
    /// The kind of the token that the step yields, if it yields one.
    pub kind: Option<TokenType>,
    /// The message of the error that the step reports, if it reports one.
    pub error: Option<Seq<char>>,
}

/// Whether the character at `at` is `expected`.
pub open spec fn follows(source: Seq<char>, at: int, expected: char) -> bool {
    0 <= at < source.len() && source[at] == expected
}

/// A step over one character that yields a token.
pub open spec fn single(start: int, line: int, kind: TokenType) -> Step {
    Step { next: start + 1, line, kind: Some(kind), error: None }
}

/// A step over one character that yields nothing.
pub open spec fn skipped(start: int, line: int) -> Step {
    Step { next: start + 1, line, kind: None, error: None }
}

/// A step over an operator that an `=` may lengthen.
pub open spec fn one_or_two(source: Seq<char>, start: int, line: int, short: TokenType, long: TokenType) -> Step {
    if follows(source, start + 1, '=') {
        Step { next: start + 2, line, kind: Some(long), error: None }
    } else {
        single(start, line, short)
    }
}

/// A step over `/`: a comment up to the end of the line, or the operator.
pub open spec fn slash_step(source: Seq<char>, start: int, line: int) -> Step {
    if follows(source, start + 1, '/') {
        Step { next: start + 2 + run_len(source, start + 2, Run::Comment), line, kind: None, error: None }
    } else {
        single(start, line, TokenType::Slash)
    }
}

/// A step over a string literal, which may span lines; without a closing
/// quote the step runs to the end of the source and reports an error.
pub open spec fn string_step(source: Seq<char>, start: int, line: int) -> Step {
    let quote = start + 1 + run_len(source, start + 1, Run::Text);
    let last_line = line + newlines(source, start + 1, quote);
    if quote >= source.len() {
        Step { next: quote, line: last_line, kind: None, error: Some(UNTERMINATED_STRING@) }
    } else {
        Step { next: quote + 1, line: last_line, kind: Some(TokenType::StringLiteral), error: None }
    }
}

/// A step over a number literal: digits, then a dot and more digits where a
/// digit follows the dot.
pub open spec fn number_step(source: Seq<char>, start: int, line: int) -> Step {
    let dot = start + 1 + run_len(source, start + 1, Run::Digits);
    let next = if follows(source, dot, '.') && dot + 1 < source.len() && is_digit(source[dot + 1]) {
        dot + 1 + run_len(source, dot + 1, Run::Digits)
    } else {
        dot
    };
    Step { next, line, kind: Some(TokenType::Number), error: None }
}

/// A step over a word: a keyword or an identifier.
pub open spec fn word_step(source: Seq<char>, start: int, line: int) -> Step {
    let next = start + 1 + run_len(source, start + 1, Run::Letters);
    Step { next, line, kind: Some(word_kind(source.subrange(start, next))), error: None }
}

/// The step of the scanner at `start`, a position inside `source`, on line
/// `line`.
pub open spec fn step(source: Seq<char>, start: int, line: int) -> Step
    recommends
        0 <= start < source.len(),
{
    let c = source[start];
    if c == '(' {
        single(start, line, TokenType::LeftParen)
    } else if c == ')' {
        single(start, line, TokenType::RightParen)
    } else if c == '{' {
        single(start, line, TokenType::LeftBrace)
    } else if c == '}' {
        single(start, line, TokenType::RightBrace)
    } else if c == ',' {
        single(start, line, TokenType::Comma)
    } else if c == '.' {
        single(start, line, TokenType::Dot)
    } else if c == '-' {
        single(start, line, TokenType::Minus)
    } else if c == '+' {
        single(start, line, TokenType::Plus)
    } else if c == ';' {
        single(start, line, TokenType::Semicolon)
    } else if c == '*' {
        single(start, line, TokenType::Star)
    } else if c == '!' {
        one_or_two(source, start, line, TokenType::Bang, TokenType::BangEqual)
    } else if c == '=' {
        one_or_two(source, start, line, TokenType::Equal, TokenType::EqualEqual)
    } else if c == '<' {
        one_or_two(source, start, line, TokenType::Less, TokenType::LessEqual)
    } else if c == '>' {
        one_or_two(source, start, line, TokenType::Greater, TokenType::GreaterEqual)
    } else if c == '/' {
        slash_step(source, start, line)
    } else if c == '"' {
        string_step(source, start, line)
    } else if c == ' ' || c == '\r' || c == '\t' {
        skipped(start, line)
    } else if c == '\n' {
        Step { next: start + 1, line: line + 1, kind: None, error: None }
    } else if is_digit(c) {
        number_step(source, start, line)
    } else if is_alpha(c) {
        word_step(source, start, line)
    } else {
        Step { next: start + 1, line, kind: None, error: Some(UNEXPECTED_CHARACTER@) }
    }
}

/// A run ends inside the source or at its end.
pub proof fn run_stays_inside(source: Seq<char>, from: int, run: Run)
    requires
        0 <= from <= source.len(),
    ensures
        from + run_len(source, from, run) <= source.len(),
    decreases source.len() - from,
{
    if from < source.len() && continues(run, source[from]) {
        run_stays_inside(source, from + 1, run);
    }
}

/// Every step moves forward and stays inside the source.
pub proof fn step_advances(source: Seq<char>, start: int, line: int)
    requires
        0 <= start < source.len(),
    ensures
        start < step(source, start, line).next <= source.len(),
        line <= step(source, start, line).line,
{
    let c = source[start];
    if c == '/' {
        if follows(source, start + 1, '/') {
            run_stays_inside(source, start + 2, Run::Comment);
        }
    } else if c == '"' {
        run_stays_inside(source, start + 1, Run::Text);
    } else if is_digit(c) {
        run_stays_inside(source, start + 1, Run::Digits);
        let dot = start + 1 + run_len(source, start + 1, Run::Digits);
        if follows(source, dot, '.') && dot + 1 < source.len() {
            run_stays_inside(source, dot + 1, Run::Digits);
        }
    } else if is_alpha(c) {
        run_stays_inside(source, start + 1, Run::Letters);
    }
}

#[via_fn]
proof fn scan_decreases(source: Seq<char>, start: int, line: int) {
    if 0 <= start < source.len() {
        step_advances(source, start, line);
    }
}

#[via_fn]
proof fn scan_errors_decreases(source: Seq<char>, start: int, line: int) {
    if 0 <= start < source.len() {
        step_advances(source, start, line);
    }
}

/// A token as the source alone determines it: everything but the value of a
/// number literal.
pub struct Shape {
    pub kind: TokenType,
    pub lexeme: Seq<char>,
    pub line: int,
}

/// The tokens of `source` from `start` on, the scanner being on line `line`
/// there; the last one is the end-of-input token, with an empty lexeme, on
/// the line where the source ends.
pub open spec fn scan(source: Seq<char>, start: int, line: int) -> Seq<Shape>
    decreases source.len() - start,
    via scan_decreases
{
    if 0 <= start < source.len() {
        let s = step(source, start, line);
        let rest = scan(source, s.next, s.line);
        match s.kind {
            Some(kind) => seq![Shape { kind, lexeme: source.subrange(start, s.next), line: s.line }] + rest,
            None => rest,
        }
    } else {
        seq![Shape { kind: TokenType::EOF, lexeme: Seq::empty(), line }]
    }
}

/// A lexical error as the source determines it.
pub struct Fault {
    pub line: int,
    pub message: Seq<char>,
}

/// The lexical errors of `source` from `start` on, in the order of their
/// positions; scanning goes on after each.
pub open spec fn scan_errors(source: Seq<char>, start: int, line: int) -> Seq<Fault>
    decreases source.len() - start,
    via scan_errors_decreases
{
    if 0 <= start < source.len() {
        let s = step(source, start, line);
        let rest = scan_errors(source, s.next, s.line);
        match s.error {
            Some(message) => seq![Fault { line: s.line, message }] + rest,
            None => rest,
        }
    } else {
        Seq::empty()
    }
}

/// Whether the literal value of a token is a possible one for its kind and
/// lexeme: for a number what `numbers` answers for the lexeme, for a string
/// the lexeme without its quotes, and none for any other kind.
pub open spec fn literal_matches<N: Numbers>(
    numbers: &N,
    kind: TokenType,
    lexeme: Seq<char>,
    literal: Option<Literal>,
) -> bool {
    match kind {
        TokenType::Number => literal matches Some(Literal::Number(value)) && parses(numbers, lexeme, value),
        TokenType::StringLiteral => literal == Some(Literal::Text(lexeme.subrange(1, lexeme.len() - 1))),
        _ => literal is None,
    }
}

/// Whether `token` is a possible token for `shape`.
pub open spec fn token_matches<N: Numbers>(numbers: &N, shape: Shape, token: TokenView) -> bool {
    &&& token.kind == shape.kind
    &&& token.lexeme == shape.lexeme
    &&& token.line == shape.line
    &&& literal_matches(numbers, shape.kind, shape.lexeme, token.literal)
}

/// Whether `tokens` are possible tokens for `shapes`, one for one.
pub open spec fn tokens_match<N: Numbers>(numbers: &N, shapes: Seq<Shape>, tokens: Seq<TokenView>) -> bool {
    &&& tokens.len() == shapes.len()
    &&& forall|i: int| 0 <= i < shapes.len() ==> token_matches(numbers, shapes[i], #[trigger] tokens[i])
}

/// Whether `errors` are the errors for `faults`, one for one.
pub open spec fn errors_match(faults: Seq<Fault>, errors: Seq<Diagnostic>) -> bool {
    &&& errors.len() == faults.len()
    &&& forall|i: int|
        0 <= i < faults.len() ==> (#[trigger] errors[i]).line == faults[i].line && errors[i]
            == lexical(errors[i].line, faults[i].message)
}

/// The scanner's state: the source, the tokens found so far, and the
/// position and line that the pass has reached.
pub struct Scanner {
    source: Vec<char>,
    tokens: Vec<Token>,
    start: usize,
    current: usize,
    line: usize,
    keywords: Vec<(String, TokenType)>,
    errors: Vec<Error>,
}

impl Scanner {
    /// The characters of the source text.
    pub closed spec fn source(&self) -> Seq<char> {
        self.source@
    }

    /// The position of the next character to scan.
    pub closed spec fn position(&self) -> int {
        self.current as int
    }

    /// The line of the next character to scan, counted from 1.
    pub closed spec fn line(&self) -> int {
        self.line as int
    }

    /// The tokens found so far.
    pub closed spec fn found(&self) -> Seq<TokenView> {
        self.tokens.deep_view()
    }

    /// The lexical errors found so far.
    pub closed spec fn diagnostics(&self) -> Seq<Diagnostic> {
        self.errors.deep_view()
    }

    /// The scanner's invariant: the position is inside the source or at its
    /// end, the line counter cannot overflow, and the keyword table is the
    /// language's.
    pub closed spec fn wf(&self) -> bool {
        &&& self.source@.len() < usize::MAX
        &&& self.current <= self.source@.len()
        &&& self.line <= self.current + 1
        &&& self.keywords@.len() == keyword_table().len()
        &&& forall|i: int|
            0 <= i < self.keywords@.len() ==> (#[trigger] self.keywords@[i]).0@ == keyword_table()[i].0
                && self.keywords@[i].1 == keyword_table()[i].1
    }

    /// A scanner at the start of `source`, on line 1, with no token yet.
    pub fn new(source: String) -> (scanner: Self)
        requires
            source@.len() < usize::MAX,
        ensures
            scanner.wf(),
            scanner.source() == source@,
            scanner.position() == 0,
            scanner.line() == 1,
            scanner.found().len() == 0,
            scanner.diagnostics().len() == 0,
    {
        let mut keywords: Vec<(String, TokenType)> = Vec::new();
        keywords.push(("and".to_owned(), TokenType::And));
        keywords.push(("class".to_owned(), TokenType::Class));
        keywords.push(("else".to_owned(), TokenType::Else));
        keywords.push(("false".to_owned(), TokenType::False));
        keywords.push(("for".to_owned(), TokenType::For));
        keywords.push(("fun".to_owned(), TokenType::Fun));
        keywords.push(("if".to_owned(), TokenType::If));
        keywords.push(("nil".to_owned(), TokenType::Nil));
        keywords.push(("or".to_owned(), TokenType::Or));
        keywords.push(("print".to_owned(), TokenType::Print));
        keywords.push(("return".to_owned(), TokenType::Return));
        keywords.push(("super".to_owned(), TokenType::Super));
        keywords.push(("this".to_owned(), TokenType::This));
        keywords.push(("true".to_owned(), TokenType::True));
        keywords.push(("var".to_owned(), TokenType::Var));
        keywords.push(("while".to_owned(), TokenType::While));

        Scanner {
            source: chars_of(source.as_str()),
            tokens: Vec::new(),
            start: 0,
            current: 0,
            line: 1,
            keywords,
            errors: Vec::new(),
        }
    }

    /// The tokens found so far.
    pub fn tokens(&self) -> (tokens: &Vec<Token>)
        ensures
            tokens.deep_view() == self.found(),
    {
        &self.tokens
    }

    /// The tokens found, for a parser to own.
    pub fn into_tokens(self) -> (tokens: Vec<Token>)
        ensures
            tokens.deep_view() == self.found(),
    {
        self.tokens
    }

    /// The lexical errors found so far, in the order of their positions.
    pub fn errors(&self) -> (errors: &Vec<Error>)
        ensures
            errors.deep_view() == self.diagnostics(),
    {
        &self.errors
    }

    /// Scans the rest of the source: appends its tokens and, last, the
    /// end-of-input token; records every lexical error and goes on after it.
    /// Fails with the first error on record, if there is one.
    pub fn scan_tokens<N: Numbers>(&mut self, numbers: &N) -> (result: LoxResult<()>)
        requires
            old(self).wf(),
        ensures
            final(self).wf(),
            final(self).source() == old(self).source(),
            final(self).position() == old(self).source().len(),
            final(self).line() == final(self).found().last().line,
            extends(
                old(self).found(),
                final(self).found(),
                scan(old(self).source(), old(self).position(), old(self).line()).len(),
            ),
            tokens_match(
                numbers,
                scan(old(self).source(), old(self).position(), old(self).line()),
                added_part(old(self).found(), final(self).found()),
            ),
            extends(
                old(self).diagnostics(),
                final(self).diagnostics(),
                scan_errors(old(self).source(), old(self).position(), old(self).line()).len(),
            ),
            errors_match(
                scan_errors(old(self).source(), old(self).position(), old(self).line()),
                added_part(old(self).diagnostics(), final(self).diagnostics()),
            ),
            match result {
                Ok(_) => final(self).diagnostics().len() == 0,
                Err(error) => final(self).diagnostics().len() > 0 && error@ == final(self).diagnostics()[0],
            },
    {
        let ghost first = self.current as int;
        let ghost first_line = self.line as int;
        let ghost old_tokens = self.tokens.deep_view();
        let ghost old_errors = self.errors.deep_view();
        let ghost shapes: Seq<Shape> = Seq::empty();
        let ghost faults: Seq<Fault> = Seq::empty();
        proof {
            assert(extends(old_tokens, self.tokens.deep_view(), 0)) by {
                assert(self.tokens.deep_view().subrange(0, old_tokens.len() as int) =~= old_tokens);
            }
            assert(extends(old_errors, self.errors.deep_view(), 0)) by {
                assert(self.errors.deep_view().subrange(0, old_errors.len() as int) =~= old_errors);
            }
        }
        while !self.is_at_end()
            invariant
                self.wf(),
                self.source == old(self).source,
                scan(self.source@, first, first_line) == shapes + scan(
                    self.source@,
                    self.current as int,
                    self.line as int,
                ),
                scan_errors(self.source@, first, first_line) == faults + scan_errors(
                    self.source@,
                    self.current as int,
                    self.line as int,
                ),
                extends(old_tokens, self.tokens.deep_view(), shapes.len()),
                tokens_match(numbers, shapes, added_part(old_tokens, self.tokens.deep_view())),
                extends(old_errors, self.errors.deep_view(), faults.len()),
                errors_match(faults, added_part(old_errors, self.errors.deep_view())),
            decreases self.source@.len() - self.current,
        {
            self.start = self.current;
            let ghost before = *self;
            self.scan_token(numbers);
            proof {
                let s = step(before.source@, before.current as int, before.line as int);
                let rest = scan(self.source@, s.next, s.line);
                let rest_errors = scan_errors(self.source@, s.next, s.line);
                match s.kind {
                    Some(kind) => {
                        let shape = Shape {
                            kind,
                            lexeme: self.source@.subrange(before.current as int, s.next),
                            line: s.line,
                        };
                        assert(shapes + (seq![shape] + rest) =~= shapes.push(shape) + rest);
                        assert(self.tokens.deep_view() =~= before.tokens.deep_view().push(
                            self.tokens@.last()@,
                        ));
                        assert(self.tokens.deep_view().subrange(0, old_tokens.len() as int)
                            =~= before.tokens.deep_view().subrange(0, old_tokens.len() as int));
                        let grown = added_part(old_tokens, self.tokens.deep_view());
                        assert(grown.len() == shapes.len() + 1);
                        assert forall|i: int| 0 <= i < shapes.len() + 1 implies token_matches(
                            numbers,
                            shapes.push(shape)[i],
                            #[trigger] grown[i],
                        ) by {
                            if i < shapes.len() {
                                assert(grown[i] == added_part(old_tokens, before.tokens.deep_view())[i]);
                            }
                        }
                        shapes = shapes.push(shape);
                    },
                    None => {},
                }
                match s.error {
                    Some(message) => {
                        let fault = Fault { line: s.line, message };
                        assert(faults + (seq![fault] + rest_errors) =~= faults.push(fault) + rest_errors);
                        assert(self.errors.deep_view() =~= before.errors.deep_view().push(
                            self.errors@.last()@,
                        ));
                        assert(self.errors.deep_view().subrange(0, old_errors.len() as int)
                            =~= before.errors.deep_view().subrange(0, old_errors.len() as int));
                        let grown = added_part(old_errors, self.errors.deep_view());
                        assert(grown.len() == faults.len() + 1);
                        assert forall|i: int| 0 <= i < faults.len() + 1 implies (#[trigger] grown[i]).line
                            == faults.push(fault)[i].line && grown[i] == lexical(
                            grown[i].line,
                            faults.push(fault)[i].message,
                        ) by {
                            if i < faults.len() {
                                assert(grown[i] == added_part(old_errors, before.errors.deep_view())[i]);
                            }
                        }
                        faults = faults.push(fault);
                    },
                    None => {},
                }
            }
        }
        let ghost before = *self;
        self.tokens.push(Token::new(TokenType::EOF, String::new(), None, self.line));
        proof {
            let last = Shape { kind: TokenType::EOF, lexeme: Seq::empty(), line: self.line as int };
            assert(scan(self.source@, self.current as int, self.line as int) =~= seq![last]);
            assert(self.tokens.deep_view() =~= before.tokens.deep_view().push(self.tokens@.last()@));
            assert(self.tokens.deep_view().subrange(0, old_tokens.len() as int)
                =~= before.tokens.deep_view().subrange(0, old_tokens.len() as int));
            let grown = added_part(old_tokens, self.tokens.deep_view());
            assert forall|i: int| 0 <= i < shapes.len() + 1 implies token_matches(
                numbers,
                shapes.push(last)[i],
                #[trigger] grown[i],
            ) by {
                if i < shapes.len() {
                    assert(grown[i] == added_part(old_tokens, before.tokens.deep_view())[i]);
                }
            }
            assert(shapes + seq![last] =~= shapes.push(last));
            assert(faults + Seq::<Fault>::empty() =~= faults);
        }
        if self.errors.len() > 0 {
            Err(self.errors[0].clone())
        } else {
            Ok(())
        }
    }

    /// Whether the whole source has been scanned.
    pub fn is_at_end(&self) -> (at_end: bool)
        ensures
            at_end == (self.position() >= self.source().len()),
    {
        self.current >= self.source.len()
    }
}

impl Scanner {
    /// What a step makes of a state: what [`step`] describes, with its token
    /// and its error put on record; `fits` says which literal values the
    /// token may hold.
    spec fn stepped(
        before: Scanner,
        after: Scanner,
        fits: spec_fn(TokenType, Seq<char>, Option<Literal>) -> bool,
    ) -> bool {
        let s = step(before.source@, before.current as int, before.line as int);
        &&& after.source == before.source
        &&& after.keywords == before.keywords
        &&& after.current == s.next
        &&& after.line == s.line
        &&& match s.kind {
            Some(kind) => {
                &&& after.tokens@ == before.tokens@.push(after.tokens@.last())
                &&& after.tokens@.last()@.kind == kind
                &&& after.tokens@.last()@.lexeme == before.source@.subrange(before.current as int, s.next)
                &&& after.tokens@.last()@.line == s.line
                &&& fits(kind, after.tokens@.last()@.lexeme, after.tokens@.last()@.literal)
            },
            None => after.tokens == before.tokens,
        }
        &&& match s.error {
            Some(message) => {
                &&& after.errors@ == before.errors@.push(after.errors@.last())
                &&& after.errors@.last()@ == lexical(after.line, message)
            },
            None => after.errors == before.errors,
        }
    }

    /// The literal values that a token may hold, as `numbers` has it.
    spec fn by_numbers<N: Numbers>(numbers: &N) -> spec_fn(TokenType, Seq<char>, Option<Literal>) -> bool {
        |kind: TokenType, lexeme: Seq<char>, literal: Option<Literal>|
            literal_matches(numbers, kind, lexeme, literal)
    }

    /// The literal value that a token other than a number holds.
    spec fn by_text() -> spec_fn(TokenType, Seq<char>, Option<Literal>) -> bool {
        |kind: TokenType, lexeme: Seq<char>, literal: Option<Literal>|
            match kind {
                TokenType::Number => false,
                TokenType::StringLiteral => literal == Some(Literal::Text(lexeme.subrange(1, lexeme.len() - 1))),
                _ => literal is None,
            }
    }

    /// The state in which a token that began at `self.start` was entered.
    spec fn entered(&self) -> Scanner {
        Scanner { current: self.start, ..*self }
    }

    /// Whether the scanner has consumed the first character of a token and
    /// nothing more.
    spec fn inside_token(&self) -> bool {
        &&& self.wf()
        &&& self.start < self.source@.len()
        &&& self.current == self.start + 1
        &&& self.line <= self.start + 1
    }

    fn scan_token<N: Numbers>(&mut self, numbers: &N)
        requires
            old(self).wf(),
            old(self).current < old(self).source@.len(),
            old(self).start == old(self).current,
        ensures
            final(self).wf(),
            Self::stepped(*old(self), *final(self), Self::by_numbers(numbers)),
    {
        let c = self.advance();

        match c {
            '(' => self.add_token(TokenType::LeftParen, None),
            ')' => self.add_token(TokenType::RightParen, None),
            '{' => self.add_token(TokenType::LeftBrace, None),
            '}' => self.add_token(TokenType::RightBrace, None),
            ',' => self.add_token(TokenType::Comma, None),
            '.' => self.add_token(TokenType::Dot, None),
            '-' => self.add_token(TokenType::Minus, None),
            '+' => self.add_token(TokenType::Plus, None),
            ';' => self.add_token(TokenType::Semicolon, None),
            '*' => self.add_token(TokenType::Star, None),
            '!' => {
                let mut token_type = TokenType::Bang;
                if self.token_match('=') {
                    token_type = TokenType::BangEqual
                };
                self.add_token(token_type, None);
            },
            '=' => {
                let mut token_type = TokenType::Equal;
                if self.token_match('=') {
                    token_type = TokenType::EqualEqual
                };
                self.add_token(token_type, None);
            },
            '<' => {
                let mut token_type = TokenType::Less;
                if self.token_match('=') {
                    token_type = TokenType::LessEqual
                };
                self.add_token(token_type, None);
            },
            '>' => {
                let mut token_type = TokenType::Greater;
                if self.token_match('=') {
                    token_type = TokenType::GreaterEqual
                };
                self.add_token(token_type, None);
            },
            '/' => {
                if self.token_match('/') {
                    while self.peek() != '\n' && !self.is_at_end()
                        invariant
                            *self == (Scanner { current: self.current, ..*old(self) }),
                            old(self).start + 2 <= self.current <= self.source@.len() < usize::MAX,
                            self.current - (old(self).start + 2) + run_len(
                                self.source@,
                                self.current as int,
                                Run::Comment,
                            ) == run_len(self.source@, old(self).start + 2, Run::Comment),
                        decreases self.source@.len() - self.current,
                    {
                        self.advance();
                    }
                } else {
                    self.add_token(TokenType::Slash, None);
                }
            },
            '"' => self.string(),
            ' ' | '\r' | '\t' => (),
            '\n' => self.line += 1,
            _ => {
                if self.is_digit(c) {
                    self.number(numbers);
                } else if self.is_alpha(c) {
                    self.identifier();
                } else {
                    self.errors.push(error(self.line, UNEXPECTED_CHARACTER));
                }
            },
        }
    }

    fn peek(&self) -> (c: char)
        requires
            self.current <= self.source@.len(),
        ensures
            c == if self.current < self.source@.len() {
                self.source@[self.current as int]
            } else {
                '\0'
            },
    {
        if self.is_at_end() {
            return '\0';
        }
        return self.source[self.current];
    }

    fn peek_next(&self) -> (c: char)
        requires
            self.current <= self.source@.len() < usize::MAX,
        ensures
            c == if self.current + 1 < self.source@.len() {
                self.source@[self.current + 1]
            } else {
                '\0'
            },
    {
        if self.current + 1 >= self.source.len() {
            return '\0';
        }
        return self.source[self.current + 1];
    }

    fn is_digit(&self, c: char) -> (digit: bool)
        ensures
            digit == is_digit(c),
    {
        c >= '0' && c <= '9'
    }

    fn is_alpha(&self, c: char) -> (alpha: bool)
        ensures
            alpha == is_alpha(c),
    {
        c == '_' || (c >= 'a' && c <= 'z') || (c >= 'A' && c <= 'Z')
    }

    /// The kind of the word `text`, by the keyword table.
    fn keyword(&self, text: &String) -> (kind: TokenType)
        requires
            self.wf(),
        ensures
            kind == word_kind(text@),
    {
        let mut index: usize = 0;
        while index < self.keywords.len()
            invariant
                self.wf(),
                index <= self.keywords@.len(),
                lookup(keyword_table(), text@, 0) == lookup(keyword_table(), text@, index as int),
            decreases self.keywords@.len() - index,
        {
            if self.keywords[index].0 == *text {
                return self.keywords[index].1;
            }
            index += 1;
        }
        TokenType::Identifier
    }

    fn identifier(&mut self)
        requires
            old(self).inside_token(),
            is_alpha(old(self).source@[old(self).start as int]),
        ensures
            final(self).wf(),
            Self::stepped(old(self).entered(), *final(self), Self::by_text()),
    {
        while self.is_alpha(self.peek())
            invariant
                *self == (Scanner { current: self.current, ..*old(self) }),
                old(self).start + 1 <= self.current <= self.source@.len() < usize::MAX,
                self.current - (old(self).start + 1) + run_len(
                    self.source@,
                    self.current as int,
                    Run::Letters,
                ) == run_len(self.source@, old(self).start + 1, Run::Letters),
            decreases self.source@.len() - self.current,
        {
            self.advance();
        }

        let text = text_of(&self.source, self.start, self.current);
        let token_type = self.keyword(&text);
        proof {
            word_kind_is_word(text@);
        }
        self.add_token(token_type, None);
    }

    fn number<N: Numbers>(&mut self, numbers: &N)
        requires
            old(self).inside_token(),
            is_digit(old(self).source@[old(self).start as int]),
        ensures
            final(self).wf(),
            Self::stepped(old(self).entered(), *final(self), Self::by_numbers(numbers)),
    {
        while self.is_digit(self.peek())
            invariant
                *self == (Scanner { current: self.current, ..*old(self) }),
                old(self).start + 1 <= self.current <= self.source@.len() < usize::MAX,
                self.current - (old(self).start + 1) + run_len(
                    self.source@,
                    self.current as int,
                    Run::Digits,
                ) == run_len(self.source@, old(self).start + 1, Run::Digits),
            decreases self.source@.len() - self.current,
        {
            self.advance();
        }

        if self.peek() == '.' && self.is_digit(self.peek_next()) {
            self.advance();
            let ghost dot = self.current as int;

            while self.is_digit(self.peek())
                invariant
                    *self == (Scanner { current: self.current, ..*old(self) }),
                    dot <= self.current <= self.source@.len() < usize::MAX,
                    self.current - dot + run_len(self.source@, self.current as int, Run::Digits)
                        == run_len(self.source@, dot, Run::Digits),
                decreases self.source@.len() - self.current,
            {
                self.advance();
            }
        }

        let text = text_of(&self.source, self.start, self.current);
        let value = numbers.parse(text.as_str());
        assert(parses(numbers, text@, value));
        let literal = Some(LiteralType::LNumber(value));
        self.add_token(TokenType::Number, literal);
    }

    fn string(&mut self)
        requires
            old(self).inside_token(),
            old(self).source@[old(self).start as int] == '"',
        ensures
            final(self).wf(),
            Self::stepped(old(self).entered(), *final(self), Self::by_text()),
    {
        while self.peek() != '"' && !self.is_at_end()
            invariant
                *self == (Scanner { current: self.current, line: self.line, ..*old(self) }),
                old(self).start + 1 <= self.current <= self.source@.len() < usize::MAX,
                self.current - (old(self).start + 1) + run_len(
                    self.source@,
                    self.current as int,
                    Run::Text,
                ) == run_len(self.source@, old(self).start + 1, Run::Text),
                self.line == old(self).line + newlines(
                    self.source@,
                    old(self).start + 1,
                    self.current as int,
                ),
                self.line <= self.current,
            decreases self.source@.len() - self.current,
        {
            if self.peek() == '\n' {
                self.line += 1
            };
            self.advance();
        }

        if self.is_at_end() {
            self.errors.push(error(self.line, UNTERMINATED_STRING));
        } else {
            // The closing ".
            self.advance();

            // Trim the surrounding quotes.
            let value = text_of(&self.source, self.start + 1, self.current - 1);
            assert(value@ =~= self.source@.subrange(self.start as int, self.current as int).subrange(
                1,
                self.current - self.start - 1,
            ));
            let literal = Some(LiteralType::LString(value));
            self.add_token(TokenType::StringLiteral, literal);
        }
    }

    fn token_match(&mut self, expected: char) -> (matched: bool)
        requires
            old(self).current <= old(self).source@.len() < usize::MAX,
        ensures
            matched == follows(old(self).source@, old(self).current as int, expected),
            *final(self) == (Scanner {
                current: if matched {
                    (old(self).current + 1) as usize
                } else {
                    old(self).current
                },
                ..*old(self)
            }),
    {
        if self.is_at_end() {
            return false;
        }
        if self.source[self.current] != expected {
            return false;
        }
        self.current += 1;
        true
    }

    fn advance(&mut self) -> (c: char)
        requires
            old(self).current < old(self).source@.len() < usize::MAX,
        ensures
            c == old(self).source@[old(self).current as int],
            *final(self) == (Scanner { current: (old(self).current + 1) as usize, ..*old(self) }),
    {
        let current_value = self.current;
        self.current += 1;
        return self.source[current_value];
    }

    fn add_token(&mut self, token_type: TokenType, literal: Option<LiteralType>)
        requires
            old(self).start <= old(self).current <= old(self).source@.len(),
        ensures
            *final(self) == (Scanner { tokens: final(self).tokens, ..*old(self) }),
            final(self).tokens@ == old(self).tokens@.push(final(self).tokens@.last()),
            final(self).tokens@.last().token_type == token_type,
            final(self).tokens@.last().lexeme@ == old(self).source@.subrange(
                old(self).start as int,
                old(self).current as int,
            ),
            final(self).tokens@.last().literal == literal,
            final(self).tokens@.last().line == old(self).line,
    {
        let text = text_of(&self.source, self.start, self.current);
        self.tokens.push(Token::new(token_type, text, literal, self.line));
    }
}

/// Whether `after` is `before` with `count` more items at its end.
pub open spec fn extends<T>(before: Seq<T>, after: Seq<T>, count: nat) -> bool {
    after.len() == before.len() + count && after.subrange(0, before.len() as int) == before
}

/// The items that `after` has behind those of `before`.
pub open spec fn added_part<T>(before: Seq<T>, after: Seq<T>) -> Seq<T> {
    after.subrange(before.len() as int, after.len() as int)
}

} // verus!
