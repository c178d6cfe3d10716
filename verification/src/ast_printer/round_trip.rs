//! Printing an expression and reading the text back.
//!
//! The text of an operation is its operator and its operands in
//! parentheses, which the grammar reads as a grouping.  So the text of an
//! expression is an expression again only where it is built of `true`,
//! `false`, `nil`, variables and unary operations; the text of a binary
//! operation, `(+ 1 2)`, is none.  For the expressions of that kind this
//! module proves that the text scans without an error, parses to an
//! expression, and that this expression has the values of the printed one.

use crate::ast::ExprView;
use crate::ast_printer::{joined, parenthesized, part, renders, wraps};
use crate::environment::Bindings;
use crate::interpreter::{evaluates, negates_operand, through, unary_applied, Valued};
use crate::numbers::Numbers;
use crate::parser::{
    assignment,
    at_end,
    binary,
    binary_rest,
    check,
    expression,
    operand,
    operator_at,
    primary,
    unary,
    Failure,
    Level,
};
use crate::scanner::token::{Literal, TokenView};
use crate::scanner::token_type::TokenType;
use crate::scanner::{
    continues,
    is_alpha,
    keyword_table,
    lookup,
    run_len,
    scan,
    scan_errors,
    step,
    token_matches,
    tokens_match,
    word_kind,
    Fault,
    Run,
    Shape,
    Step,
};
use vstd::prelude::*;

verus! {

/// Whether `text` can be the name of a variable: letters and underscores,
/// at least one, that spell no keyword.
pub open spec fn is_name(text: Seq<char>) -> bool {
    &&& text.len() > 0
    &&& forall|i: int| 0 <= i < text.len() ==> is_alpha(#[trigger] text[i])
    &&& word_kind(text) == TokenType::Identifier
}

/// Whether `token` is a `!` or a `-` as the scanner yields it.
pub open spec fn is_unary_operator(token: TokenView) -> bool {
    ||| token.kind == TokenType::Bang && token.lexeme == seq!['!']
    ||| token.kind == TokenType::Minus && token.lexeme == seq!['-']
}

/// Whether an expression is built of `true`, `false`, `nil`, variables and
/// unary operations alone.
pub open spec fn plain(expr: ExprView) -> bool
    decreases expr,
{
    match expr {
        ExprView::Literal(value) => value is Boolean || value is Nil,
        ExprView::Variable(name) => name.kind == TokenType::Identifier && is_name(name.lexeme),
        ExprView::Unary(operator, operand) => is_unary_operator(operator) && plain(*operand),
        _ => false,
    }
}

/// The text of a plain expression.
pub open spec fn text_of(expr: ExprView) -> Seq<char>
    decreases expr,
{
    match expr {
        ExprView::Literal(Literal::Boolean(true)) => seq!['t', 'r', 'u', 'e'],
        ExprView::Literal(Literal::Boolean(false)) => seq!['f', 'a', 'l', 's', 'e'],
        ExprView::Literal(_) => seq!['n', 'i', 'l'],
        ExprView::Variable(name) => name.lexeme,
        ExprView::Unary(operator, operand) => seq!['('] + operator.lexeme + seq![' '] + text_of(*operand)
            + seq![')'],
        _ => Seq::empty(),
    }
}

/// What the text of a plain expression parses to, its tokens standing from
/// `at` on in `tokens`: a literal is itself, a variable is the variable of
/// the token found, and a unary operation is a grouping around the unary
/// operation of the tokens found.
pub open spec fn read_back(expr: ExprView, tokens: Seq<TokenView>, at: int) -> ExprView
    decreases expr,
{
    match expr {
        ExprView::Variable(_) => ExprView::Variable(tokens[at]),
        ExprView::Unary(_, operand) => ExprView::Grouping(
            Box::new(ExprView::Unary(tokens[at + 1], Box::new(read_back(*operand, tokens, at + 2)))),
        ),
        _ => expr,
    }
}

/// The number of tokens in the text of a plain expression.
pub open spec fn token_count(expr: ExprView) -> nat
    decreases expr,
{
    match expr {
        ExprView::Unary(_, operand) => token_count(*operand) + 3,
        _ => 1,
    }
}

/// Whether the tokens from `at` on are those of the text of a plain
/// expression, but for their lines.
pub open spec fn spelled(expr: ExprView, tokens: Seq<TokenView>, at: int) -> bool
    decreases expr,
{
    &&& 0 <= at
    &&& at + token_count(expr) <= tokens.len()
    &&& match expr {
        ExprView::Literal(Literal::Boolean(true)) => tokens[at].kind == TokenType::True,
        ExprView::Literal(Literal::Boolean(false)) => tokens[at].kind == TokenType::False,
        ExprView::Literal(_) => tokens[at].kind == TokenType::Nil,
        ExprView::Variable(name) => tokens[at].kind == TokenType::Identifier && tokens[at].lexeme
            == name.lexeme,
        ExprView::Unary(operator, operand) => {
            &&& tokens[at].kind == TokenType::LeftParen
            &&& tokens[at + 1].kind == operator.kind
            &&& spelled(*operand, tokens, at + 2)
            &&& tokens[at + 2 + token_count(*operand)].kind == TokenType::RightParen
        },
        _ => false,
    }
}

/// What was read back has the values of what was printed: each gives a
/// value exactly where the other gives it.
pub proof fn read_back_evaluates_alike<N: Numbers>(
    numbers: &N,
    expr: ExprView,
    tokens: Seq<TokenView>,
    at: int,
    before: Bindings,
    value: Literal,
    after: Bindings,
)
    requires
        plain(expr),
        spelled(expr, tokens, at),
    ensures
        evaluates(numbers, expr, before, Ok(value), after) <==> evaluates(
            numbers,
            read_back(expr, tokens, at),
            before,
            Ok(value),
            after,
        ),
    decreases expr,
{
    match expr {
        ExprView::Unary(operator, operand) => {
            let copy = ExprView::Unary(tokens[at + 1], Box::new(read_back(*operand, tokens, at + 2)));
            let outcome: Valued = Ok(value);
            assert(evaluates(numbers, read_back(expr, tokens, at), before, outcome, after) == evaluates(
                numbers,
                copy,
                before,
                outcome,
                after,
            ));
            if evaluates(numbers, expr, before, outcome, after) {
                assert(negates_operand(numbers, expr, before, outcome, after));
                let inner = choose|inner: Valued|
                    #![trigger through(inner)]
                    through(inner) && evaluates(numbers, *expr->Unary_1, before, inner, after)
                        && unary_applied(numbers, expr->Unary_0, inner, outcome);
                read_back_evaluates_alike(numbers, *operand, tokens, at + 2, before, inner->Ok_0, after);
                assert(through(inner));
                assert(evaluates(numbers, *copy->Unary_1, before, inner, after));
                assert(unary_applied(numbers, copy->Unary_0, inner, outcome));
                assert(negates_operand(numbers, copy, before, outcome, after));
            }
            if evaluates(numbers, copy, before, outcome, after) {
                assert(negates_operand(numbers, copy, before, outcome, after));
                let inner = choose|inner: Valued|
                    #![trigger through(inner)]
                    through(inner) && evaluates(numbers, *copy->Unary_1, before, inner, after)
                        && unary_applied(numbers, copy->Unary_0, inner, outcome);
                read_back_evaluates_alike(numbers, *operand, tokens, at + 2, before, inner->Ok_0, after);
                assert(through(inner));
                assert(evaluates(numbers, *expr->Unary_1, before, inner, after));
                assert(unary_applied(numbers, expr->Unary_0, inner, outcome));
                assert(negates_operand(numbers, expr, before, outcome, after));
            }
        },
        _ => {},
    }
}

/// Whether an expression ends before `at`: there is the end of the input,
/// or a right parenthesis.
pub open spec fn closes(tokens: Seq<TokenView>, at: int) -> bool {
    at_end(tokens, at) || tokens[at].kind == TokenType::RightParen
}

/// A unary expression before the end of an expression is the whole
/// expression.
pub proof fn unary_is_expression(tokens: Seq<TokenView>, at: int)
    requires
        unary(tokens, at) is Ok,
        closes(tokens, at + unary(tokens, at)->Ok_0.1),
    ensures
        expression(tokens, at) == unary(tokens, at),
{
    let (tree, used) = unary(tokens, at)->Ok_0;
    let end = at + used;
    assert(!operator_at(tokens, end, Level::Factor));
    assert(!operator_at(tokens, end, Level::Term));
    assert(!operator_at(tokens, end, Level::Comparison));
    assert(!operator_at(tokens, end, Level::Equality));
    assert(!check(tokens, end, TokenType::Equal));
    assert(operand(tokens, at, Level::Factor) == unary(tokens, at));
    assert(binary_rest(tokens, end, Level::Factor, tree) == Ok::<(ExprView, nat), Failure>((tree, 0)));
    assert(binary(tokens, at, Level::Factor) == unary(tokens, at));
    assert(operand(tokens, at, Level::Term) == unary(tokens, at));
    assert(binary_rest(tokens, end, Level::Term, tree) == Ok::<(ExprView, nat), Failure>((tree, 0)));
    assert(binary(tokens, at, Level::Term) == unary(tokens, at));
    assert(operand(tokens, at, Level::Comparison) == unary(tokens, at));
    assert(binary_rest(tokens, end, Level::Comparison, tree) == Ok::<(ExprView, nat), Failure>((tree, 0)));
    assert(binary(tokens, at, Level::Comparison) == unary(tokens, at));
    assert(operand(tokens, at, Level::Equality) == unary(tokens, at));
    assert(binary_rest(tokens, end, Level::Equality, tree) == Ok::<(ExprView, nat), Failure>((tree, 0)));
    assert(binary(tokens, at, Level::Equality) == unary(tokens, at));
    assert(assignment(tokens, at) == unary(tokens, at));
}

/// The tokens of the text of a plain expression parse to what
/// [`read_back`] says, as a primary, as a unary expression and as an
/// expression.
#[verifier::rlimit(50)]
pub proof fn text_parses_back(expr: ExprView, tokens: Seq<TokenView>, at: int)
    requires
        plain(expr),
        spelled(expr, tokens, at),
        closes(tokens, at + token_count(expr)),
    ensures
        primary(tokens, at) == Ok::<(ExprView, nat), Failure>((read_back(expr, tokens, at), token_count(expr))),
        unary(tokens, at) == primary(tokens, at),
        expression(tokens, at) == primary(tokens, at),
    decreases expr,
{
    match expr {
        ExprView::Unary(operator, inner) => {
            let inside = read_back(*inner, tokens, at + 2);
            let count = token_count(*inner);
            text_parses_back(*inner, tokens, at + 2);
            assert(unary(tokens, at + 2) == Ok::<(ExprView, nat), Failure>((inside, count)));
            assert(check(tokens, at + 1, TokenType::Bang) || check(tokens, at + 1, TokenType::Minus));
            assert(unary(tokens, at + 1) == Ok::<(ExprView, nat), Failure>(
                (ExprView::Unary(tokens[at + 1], Box::new(inside)), count + 1),
            ));
            unary_is_expression(tokens, at + 1);
            assert(check(tokens, at, TokenType::LeftParen));
            assert(check(tokens, at + 1 + (count + 1), TokenType::RightParen));
            assert(primary(tokens, at) == Ok::<(ExprView, nat), Failure>(
                (read_back(expr, tokens, at), token_count(expr)),
            ));
        },
        _ => {},
    }
    assert(unary(tokens, at) == primary(tokens, at));
    unary_is_expression(tokens, at);
}

/// The tokens of the text of a plain expression, all on one line.
pub open spec fn lexed(expr: ExprView, line: int) -> Seq<Shape>
    decreases expr,
{
    match expr {
        ExprView::Literal(Literal::Boolean(true)) => seq![
            Shape { kind: TokenType::True, lexeme: text_of(expr), line },
        ],
        ExprView::Literal(Literal::Boolean(false)) => seq![
            Shape { kind: TokenType::False, lexeme: text_of(expr), line },
        ],
        ExprView::Literal(_) => seq![Shape { kind: TokenType::Nil, lexeme: text_of(expr), line }],
        ExprView::Variable(name) => seq![Shape { kind: TokenType::Identifier, lexeme: name.lexeme, line }],
        ExprView::Unary(operator, operand) => seq![
            Shape { kind: TokenType::LeftParen, lexeme: seq!['('], line },
            Shape { kind: operator.kind, lexeme: operator.lexeme, line },
        ] + lexed(*operand, line) + seq![Shape { kind: TokenType::RightParen, lexeme: seq![')'], line }],
        _ => Seq::empty(),
    }
}

/// A run that goes on up to `end` and no further has the length from its
/// start to `end`.
pub proof fn run_ends(source: Seq<char>, from: int, end: int, run: Run)
    requires
        0 <= from <= end <= source.len(),
        forall|i: int| from <= i < end ==> continues(run, #[trigger] source[i]),
        end == source.len() || !continues(run, source[end]),
    ensures
        run_len(source, from, run) == end - from,
    decreases end - from,
{
    if from < end {
        run_ends(source, from + 1, end, run);
    }
}

/// A word is scanned as a whole: letters up to the first character that is
/// none give one token, a keyword or an identifier.
pub proof fn word_scans(source: Seq<char>, start: int, end: int, line: int)
    requires
        0 <= start < end <= source.len(),
        forall|i: int| start <= i < end ==> is_alpha(#[trigger] source[i]),
        end == source.len() || !is_alpha(source[end]),
    ensures
        step(source, start, line) == (Step {
            next: end,
            line,
            kind: Some(word_kind(source.subrange(start, end))),
            error: None,
        }),
{
    assert(is_alpha(source[start]));
    run_ends(source, start + 1, end, Run::Letters);
}

/// The words `true`, `false` and `nil` are keywords.
pub proof fn literal_words_are_keywords()
    ensures
        word_kind(seq!['t', 'r', 'u', 'e']) == TokenType::True,
        word_kind(seq!['f', 'a', 'l', 's', 'e']) == TokenType::False,
        word_kind(seq!['n', 'i', 'l']) == TokenType::Nil,
{
    reveal_with_fuel(lookup, 17);
    reveal_strlit("and");
    reveal_strlit("class");
    reveal_strlit("else");
    reveal_strlit("false");
    reveal_strlit("for");
    reveal_strlit("fun");
    reveal_strlit("if");
    reveal_strlit("nil");
    reveal_strlit("or");
    reveal_strlit("print");
    reveal_strlit("return");
    reveal_strlit("super");
    reveal_strlit("this");
    reveal_strlit("true");
    let table = keyword_table();
    assert(table[3].0 =~= seq!['f', 'a', 'l', 's', 'e']);
    assert(table[7].0 =~= seq!['n', 'i', 'l']);
    assert(table[13].0 =~= seq!['t', 'r', 'u', 'e']);
    assert(table[0].0[0] == 'a');
    assert(table[1].0[0] == 'c');
    assert(table[2].0[0] == 'e');
    assert(table[4].0[1] == 'o');
    assert(table[5].0[1] == 'u');
    assert(table[6].0[0] == 'i');
    assert(table[8].0[0] == 'o');
    assert(table[9].0[0] == 'p');
    assert(table[10].0[0] == 'r');
    assert(table[11].0[0] == 's');
    assert(table[12].0[1] == 'h');
}

/// What a scan yields from a position inside the source: what its first
/// step yields, and what the scan yields from behind that step.
pub proof fn scan_unfolds(source: Seq<char>, start: int, line: int)
    requires
        0 <= start < source.len(),
    ensures
        scan(source, start, line) == match step(source, start, line).kind {
            Some(kind) => seq![
                Shape {
                    kind,
                    lexeme: source.subrange(start, step(source, start, line).next),
                    line: step(source, start, line).line,
                },
            ] + scan(source, step(source, start, line).next, step(source, start, line).line),
            None => scan(source, step(source, start, line).next, step(source, start, line).line),
        },
        scan_errors(source, start, line) == match step(source, start, line).error {
            Some(message) => seq![Fault { line: step(source, start, line).line, message }] + scan_errors(
                source,
                step(source, start, line).next,
                step(source, start, line).line,
            ),
            None => scan_errors(source, step(source, start, line).next, step(source, start, line).line),
        },
{
}

/// The text of a plain expression, wherever it stands in a source before a
/// character that is no letter, scans to its tokens without an error.
#[verifier::rlimit(50)]
pub proof fn text_scans(expr: ExprView, source: Seq<char>, start: int, line: int)
    requires
        plain(expr),
        0 <= start,
        start + text_of(expr).len() <= source.len(),
        source.subrange(start, start + text_of(expr).len()) == text_of(expr),
        start + text_of(expr).len() == source.len() || !is_alpha(source[start + text_of(expr).len()]),
    ensures
        scan(source, start, line) == lexed(expr, line) + scan(source, start + text_of(expr).len(), line),
        scan_errors(source, start, line) == scan_errors(source, start + text_of(expr).len(), line),
    decreases expr,
{
    let text = text_of(expr);
    let end = start + text.len();
    assert forall|i: int| 0 <= i < text.len() implies source[start + i] == text[i] by {
        assert(source.subrange(start, end)[i] == source[start + i]);
    }
    match expr {
        ExprView::Unary(operator, operand) => {
            let inner = text_of(*operand);
            let close = start + 3 + inner.len();
            assert(text.len() == inner.len() + 4);
            assert(operator.lexeme.len() == 1);
            assert(text[0] == '(');
            assert(text[1] == operator.lexeme[0]);
            assert(text[2] == ' ');
            assert(text[3 + inner.len() as int] == ')');
            assert(source[start] == '(');
            assert(source[start + 1] == operator.lexeme[0]);
            assert(source[start + 2] == ' ');
            assert(source[close] == ')');
            assert forall|i: int| 0 <= i < inner.len() implies source[start + 3 + i] == inner[i] by {
                assert(text[3 + i] == inner[i]);
            }
            assert(source.subrange(start + 3, close) =~= inner);
            text_scans(*operand, source, start + 3, line);
            scan_unfolds(source, start, line);
            scan_unfolds(source, start + 1, line);
            scan_unfolds(source, start + 2, line);
            scan_unfolds(source, close, line);
            assert(source.subrange(start, start + 1) =~= seq!['(']);
            assert(source.subrange(start + 1, start + 2) =~= operator.lexeme);
            assert(source.subrange(close, close + 1) =~= seq![')']);
            let rest = scan(source, end, line);
            let open = Shape { kind: TokenType::LeftParen, lexeme: seq!['('], line };
            let sign = Shape { kind: operator.kind, lexeme: operator.lexeme, line };
            let shut = Shape { kind: TokenType::RightParen, lexeme: seq![')'], line };
            assert(scan(source, close, line) == seq![shut] + rest);
            assert(scan(source, start + 3, line) == lexed(*operand, line) + (seq![shut] + rest));
            assert(scan(source, start + 2, line) == scan(source, start + 3, line));
            assert(scan(source, start + 1, line) == seq![sign] + scan(source, start + 2, line));
            assert(scan(source, start, line) == seq![open] + scan(source, start + 1, line));
            assert(seq![open] + (seq![sign] + (lexed(*operand, line) + (seq![shut] + rest))) =~= (seq![
                open,
                sign,
            ] + lexed(*operand, line) + seq![shut]) + rest);
        },
        ExprView::Variable(name) => {
            assert forall|i: int| start <= i < end implies is_alpha(#[trigger] source[i]) by {
                assert(source[start + (i - start)] == text[i - start]);
            }
            word_scans(source, start, end, line);
            scan_unfolds(source, start, line);
            assert(source.subrange(start, end) =~= name.lexeme);
        },
        _ => {
            literal_words_are_keywords();
            word_scans(source, start, end, line);
            scan_unfolds(source, start, line);
        },
    }
}

/// The printer gives a plain expression the text that [`text_of`] says.
pub proof fn plain_text_is_printed<N: Numbers>(numbers: &N, expr: ExprView, text: Seq<char>)
    requires
        plain(expr),
        renders(numbers, expr, text),
    ensures
        text == text_of(expr),
    decreases expr,
{
    reveal_strlit("true");
    reveal_strlit("false");
    reveal_strlit("nil");
    match expr {
        ExprView::Unary(operator, operand) => {
            reveal_strlit("(");
            reveal_strlit(")");
            reveal_strlit(" ");
            assert(wraps(numbers, expr, text));
            let inside = choose|inside: Seq<char>|
                #![trigger part(inside)]
                part(inside) && {
                    ||| expr is Grouping && renders(numbers, *expr->Grouping_0, inside) && text
                        == parenthesized("group"@, seq![inside])
                    ||| expr is Unary && renders(numbers, *expr->Unary_1, inside) && text == parenthesized(
                        expr->Unary_0.lexeme,
                        seq![inside],
                    )
                    ||| expr is Assign && renders(numbers, *expr->Assign_1, inside) && text
                        == parenthesized("= "@ + expr->Assign_0.lexeme, seq![inside])
                };
            plain_text_is_printed(numbers, *operand, inside);
            assert(seq![inside].drop_last() =~= Seq::<Seq<char>>::empty());
            assert(joined(seq![inside]) =~= " "@ + inside) by {
                reveal_with_fuel(joined, 2);
            }
            assert(text =~= text_of(expr));
        },
        ExprView::Literal(value) => {
            assert(text =~= text_of(expr));
        },
        _ => {},
    }
}

/// Tokens that match the tokens of the text of a plain expression spell
/// the expression.
pub proof fn tokens_spell<N: Numbers>(
    numbers: &N,
    expr: ExprView,
    shapes: Seq<Shape>,
    tokens: Seq<TokenView>,
    at: int,
    line: int,
)
    requires
        plain(expr),
        0 <= at,
        at + lexed(expr, line).len() <= shapes.len(),
        shapes.subrange(at, at + lexed(expr, line).len()) == lexed(expr, line),
        tokens_match(numbers, shapes, tokens),
    ensures
        lexed(expr, line).len() == token_count(expr),
        spelled(expr, tokens, at),
    decreases expr,
{
    let own = lexed(expr, line);
    assert forall|i: int| 0 <= i < own.len() implies shapes[at + i] == own[i] by {
        assert(shapes.subrange(at, at + own.len())[i] == shapes[at + i]);
    }
    assert forall|i: int| 0 <= i < own.len() implies (#[trigger] tokens[at + i]).kind == own[i].kind
        && tokens[at + i].lexeme == own[i].lexeme by {
        assert(token_matches(numbers, shapes[at + i], tokens[at + i]));
    }
    match expr {
        ExprView::Unary(operator, operand) => {
            let inner = lexed(*operand, line);
            assert(own.len() == inner.len() + 3);
            assert forall|i: int| 0 <= i < inner.len() implies shapes[at + 2 + i] == inner[i] by {
                assert(own[2 + i] == inner[i]);
            }
            assert(shapes.subrange(at + 2, at + 2 + inner.len()) =~= inner);
            tokens_spell(numbers, *operand, shapes, tokens, at + 2, line);
            assert(tokens[at + 0].kind == own[0].kind);
            assert(tokens[at + 1].kind == own[1].kind);
            assert(tokens[at + (2 + inner.len())].kind == own[2 + inner.len() as int].kind);
        },
        _ => {
            assert(tokens[at + 0].kind == own[0].kind);
            assert(tokens[at + 0].lexeme == own[0].lexeme);
        },
    }
}

/// Printing and reading back keeps the values of an expression that is
/// built of `true`, `false`, `nil`, variables and unary operations: the text
/// that the printer gives it scans without an error, its tokens parse, all
/// of them, to an expression, and that expression gives a value exactly
/// where the printed one gives it.
pub proof fn printed_text_reads_back<N: Numbers>(
    numbers: &N,
    expr: ExprView,
    text: Seq<char>,
    tokens: Seq<TokenView>,
)
    requires
        plain(expr),
        renders(numbers, expr, text),
        tokens_match(numbers, scan(text, 0, 1), tokens),
    ensures
        scan_errors(text, 0, 1).len() == 0,
        expression(tokens, 0) == Ok::<(ExprView, nat), Failure>((read_back(expr, tokens, 0), token_count(expr))),
        at_end(tokens, token_count(expr) as int),
        forall|before: Bindings, value: Literal, after: Bindings|
            #![trigger evaluates(numbers, expr, before, Ok(value), after)]
            #![trigger evaluates(numbers, read_back(expr, tokens, 0), before, Ok(value), after)]
            evaluates(numbers, expr, before, Ok(value), after) <==> evaluates(
                numbers,
                read_back(expr, tokens, 0),
                before,
                Ok(value),
                after,
            ),
{
    plain_text_is_printed(numbers, expr, text);
    assert(text.subrange(0, text.len() as int) =~= text);
    text_scans(expr, text, 0, 1);
    let shapes = scan(text, 0, 1);
    let own = lexed(expr, 1);
    assert(shapes == own + scan(text, text.len() as int, 1));
    assert(scan(text, text.len() as int, 1).len() == 1);
    assert(shapes.subrange(0, own.len() as int) =~= own);
    tokens_spell(numbers, expr, shapes, tokens, 0, 1);
    assert(token_matches(numbers, shapes[own.len() as int], tokens[own.len() as int]));
    assert(tokens[token_count(expr) as int].kind == TokenType::EOF);
    text_parses_back(expr, tokens, 0);
    assert forall|before: Bindings, value: Literal, after: Bindings|
        #![trigger evaluates(numbers, expr, before, Ok(value), after)]
        #![trigger evaluates(numbers, read_back(expr, tokens, 0), before, Ok(value), after)]
        evaluates(numbers, expr, before, Ok(value), after) <==> evaluates(
            numbers,
            read_back(expr, tokens, 0),
            before,
            Ok(value),
            after,
        ) by {
        read_back_evaluates_alike(numbers, expr, tokens, 0, before, value, after);
    }
}

} // verus!
