//! Diagnostics: what went wrong, and on which line of the source.

use vstd::prelude::*;

verus! {

/// A failure of one of the three stages, tagged with a source line.
#[derive(Debug, PartialEq)]
pub enum Error {
    /// A lexical error: an unterminated string or an unexpected character.
    ScannerError(usize, String),
    /// A syntax error.
    ParseError(usize, String),
    /// A runtime error: an undefined variable or an operand of the wrong kind.
    RuntimeError(usize, String),
}

/// The stage that a diagnostic comes from.
pub enum DiagnosticKind {
    Lexical,
    Syntax,
    Runtime,
}

/// What an [`Error`] stands for.
pub struct Diagnostic {
    pub kind: DiagnosticKind,
    pub line: usize,
    pub message: Seq<char>,
}

impl View for Error {
    type V = Diagnostic;

    open spec fn view(&self) -> Diagnostic {
        match self {
            Error::ScannerError(line, message) => Diagnostic {
                kind: DiagnosticKind::Lexical,
                line: *line,
                message: message@,
            },
            Error::ParseError(line, message) => Diagnostic {
                kind: DiagnosticKind::Syntax,
                line: *line,
                message: message@,
            },
            Error::RuntimeError(line, message) => Diagnostic {
                kind: DiagnosticKind::Runtime,
                line: *line,
                message: message@,
            },
        }
    }
}

impl DeepView for Error {
    type V = Diagnostic;

    open spec fn deep_view(&self) -> Diagnostic {
        self@
    }
}

impl Clone for Error {
    fn clone(&self) -> (copy: Self)
        ensures
            copy@ == self@,
    {
        match self {
            Error::ScannerError(line, message) => Error::ScannerError(*line, message.clone()),
            Error::ParseError(line, message) => Error::ParseError(*line, message.clone()),
            Error::RuntimeError(line, message) => Error::RuntimeError(*line, message.clone()),
        }
    }
}

/// The result of a stage.
pub type LoxResult<T> = Result<T, Error>;

/// The lexical diagnostic with the given message.
pub open spec fn lexical(line: usize, message: Seq<char>) -> Diagnostic {
    Diagnostic { kind: DiagnosticKind::Lexical, line, message }
}

/// The syntax diagnostic with the given message.
pub open spec fn syntax(line: usize, message: Seq<char>) -> Diagnostic {
    Diagnostic { kind: DiagnosticKind::Syntax, line, message }
}

/// The runtime diagnostic with the given message.
pub open spec fn runtime(line: usize, message: Seq<char>) -> Diagnostic {
    Diagnostic { kind: DiagnosticKind::Runtime, line, message }
}

/// The character of a decimal digit.
pub open spec fn digit(value: nat) -> char {
    if value == 0 {
        '0'
    } else if value == 1 {
        '1'
    } else if value == 2 {
        '2'
    } else if value == 3 {
        '3'
    } else if value == 4 {
        '4'
    } else if value == 5 {
        '5'
    } else if value == 6 {
        '6'
    } else if value == 7 {
        '7'
    } else if value == 8 {
        '8'
    } else {
        '9'
    }
}

/// The decimal digits of `value`, most significant first, without leading
/// zeros.
pub open spec fn decimal(value: nat) -> Seq<char>
    decreases value,
{
    if value < 10 {
        seq![digit(value)]
    } else {
        decimal(value / 10).push(digit(value % 10))
    }
}

/// The name of a kind, as a report shows it.
pub open spec fn kind_name(kind: DiagnosticKind) -> Seq<char> {
    match kind {
        DiagnosticKind::Lexical => "Lexical"@,
        DiagnosticKind::Syntax => "Syntax"@,
        DiagnosticKind::Runtime => "Runtime"@,
    }
}

/// The report of a diagnostic: `[line N] KindError: message`.
pub open spec fn report_of(diagnostic: Diagnostic) -> Seq<char> {
    "[line "@ + decimal(diagnostic.line as nat) + "] "@ + kind_name(diagnostic.kind) + "Error: "@
        + diagnostic.message
}

fn digit_char(value: usize) -> (ch: char)
    requires
        value < 10,
    ensures
        ch == digit(value as nat),
{
    if value == 0 {
        '0'
    } else if value == 1 {
        '1'
    } else if value == 2 {
        '2'
    } else if value == 3 {
        '3'
    } else if value == 4 {
        '4'
    } else if value == 5 {
        '5'
    } else if value == 6 {
        '6'
    } else if value == 7 {
        '7'
    } else if value == 8 {
        '8'
    } else {
        '9'
    }
}

/// The decimal text of `value`.
pub fn decimal_text(value: usize) -> (text: String)
    ensures
        text@ == decimal(value as nat),
    decreases value,
{
    if value < 10 {
        let mut text = String::new();
        text.push(digit_char(value));
        assert(text@ =~= seq![digit(value as nat)]);
        text
    } else {
        let mut text = decimal_text(value / 10);
        text.push(digit_char(value % 10));
        text
    }
}

/// The lexical error with the given line and message.
pub fn error(line: usize, message: &str) -> (error: Error)
    ensures
        error@ == lexical(line, message@),
{
    Error::ScannerError(line, message.to_owned())
}

impl Error {
    /// The source line of the error.
    pub fn line(&self) -> (line: usize)
        ensures
            line == self@.line,
    {
        match self {
            Error::ScannerError(line, _) => *line,
            Error::ParseError(line, _) => *line,
            Error::RuntimeError(line, _) => *line,
        }
    }

    /// What went wrong, in words.
    pub fn message(&self) -> (message: String)
        ensures
            message@ == self@.message,
    {
        match self {
            Error::ScannerError(_, message) => message.clone(),
            Error::ParseError(_, message) => message.clone(),
            Error::RuntimeError(_, message) => message.clone(),
        }
    }

    /// The line that a host writes to its error channel for this error.
    pub fn report(&self) -> (text: String)
        ensures
            text@ == report_of(self@),
    {
        let mut text = "[line ".to_owned();
        text.append(decimal_text(self.line()).as_str());
        text.append("] ");
        match self {
            Error::ScannerError(_, _) => text.append("Lexical"),
            Error::ParseError(_, _) => text.append("Syntax"),
            Error::RuntimeError(_, _) => text.append("Runtime"),
        }
        text.append("Error: ");
        text.append(self.message().as_str());
        text
    }
}

} // verus!
