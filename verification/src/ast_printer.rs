//! The printer: an expression as text in prefix form, each operation in
//! parentheses behind its operator.

pub mod round_trip;

use crate::ast::{size, Expr, ExprView};
use crate::numbers::{formats, Numbers};
use crate::scanner::token::{Literal, LiteralType, Token};
use vstd::prelude::*;

verus! {

/// The parts of an operation, each behind a space.
pub open spec fn joined(parts: Seq<Seq<char>>) -> Seq<char>
    decreases parts.len(),
{
    if parts.len() == 0 {
        Seq::empty()
    } else {
        joined(parts.drop_last()) + " "@ + parts.last()
    }
}

/// An operation as text: `(`, its name, its parts each behind a space, `)`.
pub open spec fn parenthesized(name: Seq<char>, parts: Seq<Seq<char>>) -> Seq<char> {
    "("@ + name + joined(parts) + ")"@
}

/// Marks `text` as the text of a part of an expression.
pub open spec fn part(text: Seq<char>) -> bool {
    true
}

/// Marks `left` and `right` as the texts of the two operands of an
/// operation.
pub open spec fn parts(left: Seq<char>, right: Seq<char>) -> bool {
    true
}

/// Marks `texts` as the texts of the parts of an operation.
pub open spec fn all_parts(texts: Seq<Seq<char>>) -> bool {
    true
}

/// `text` is a possible text of a literal: a string itself, without quotes;
/// a number as `numbers` formats it; `true`, `false` or `nil`.
pub open spec fn renders_literal<N: Numbers>(numbers: &N, value: Literal, text: Seq<char>) -> bool {
    match value {
        Literal::Text(content) => text == content,
        Literal::Number(bits) => formats(numbers, bits, text),
        Literal::Boolean(truth) => text == if truth {
            "true"@
        } else {
            "false"@
        },
        Literal::Nil => text == "nil"@,
    }
}

/// `text` is a possible text of `expr`: a literal as [`renders_literal`]
/// has it, a variable as its name, a grouping as `(group inside)`, a unary
/// operation as `(operator operand)`, a binary one as `(operator left
/// right)`, and an assignment as `(= name value)`.
pub open spec fn renders<N: Numbers>(numbers: &N, expr: ExprView, text: Seq<char>) -> bool
    decreases expr, 1nat,
{
    match expr {
        ExprView::Literal(value) => renders_literal(numbers, value, text),
        ExprView::Variable(name) => text == name.lexeme,
        ExprView::Grouping(_) => wraps(numbers, expr, text),
        ExprView::Unary(_, _) => wraps(numbers, expr, text),
        ExprView::Assign(_, _) => wraps(numbers, expr, text),
        ExprView::Binary(_, _, _) => joins(numbers, expr, text),
    }
}

/// [`renders`], for an expression with one part.
pub open spec fn wraps<N: Numbers>(numbers: &N, expr: ExprView, text: Seq<char>) -> bool
    decreases expr, 0nat,
{
    exists|inside: Seq<char>|
        #![trigger part(inside)]
        part(inside) && {
            ||| expr is Grouping && renders(numbers, *expr->Grouping_0, inside) && text == parenthesized(
                "group"@,
                seq![inside],
            )
            ||| expr is Unary && renders(numbers, *expr->Unary_1, inside) && text == parenthesized(
                expr->Unary_0.lexeme,
                seq![inside],
            )
            ||| expr is Assign && renders(numbers, *expr->Assign_1, inside) && text == parenthesized(
                "= "@ + expr->Assign_0.lexeme,
                seq![inside],
            )
        }
}

/// [`renders`], for a binary operation.
pub open spec fn joins<N: Numbers>(numbers: &N, expr: ExprView, text: Seq<char>) -> bool
    decreases expr, 0nat,
{
    exists|left: Seq<char>, right: Seq<char>|
        #![trigger parts(left, right)]
        parts(left, right) && expr is Binary && renders(numbers, *expr->Binary_0, left) && renders(
            numbers,
            *expr->Binary_2,
            right,
        ) && text == parenthesized(expr->Binary_1.lexeme, seq![left, right])
}

/// `text` is a possible text of the operation `name` on `exprs`.
pub open spec fn parenthesizes<N: Numbers>(numbers: &N, name: Seq<char>, exprs: Seq<&Expr>, text: Seq<char>) -> bool {
    exists|texts: Seq<Seq<char>>|
        #![trigger all_parts(texts)]
        all_parts(texts) && texts.len() == exprs.len() && (forall|i: int|
            0 <= i < texts.len() ==> renders(numbers, (#[trigger] exprs[i])@, texts[i])) && text
            == parenthesized(name, texts)
}

/// The printer.
pub struct AstPrinter {}

impl AstPrinter {
    /// The text of `expr`.
    pub fn print<N: Numbers>(&self, expr: Expr, numbers: &N) -> (text: String)
        ensures
            renders(numbers, expr@, text@),
    {
        self.handle(&expr, numbers)
    }

    fn handle<N: Numbers>(&self, expr: &Expr, numbers: &N) -> (text: String)
        ensures
            renders(numbers, expr@, text@),
        decreases size(expr@), 2nat,
    {
        match expr {
            Expr::Binary(left, token, right) => self.visit_binary_expr(left, token, right, numbers),
            Expr::Literal(literal) => self.visit_literal_expr(literal, numbers),
            Expr::Grouping(expr) => self.visit_grouping_expr(expr, numbers),
            Expr::Unary(token, expr) => self.visit_unary_expr(token, expr, numbers),
            Expr::Variable(token) => self.visit_variable_expr(token),
            Expr::Assign(token, expr) => self.visit_assign_expr(token, expr, numbers),
        }
    }

    fn parenthesize<N: Numbers>(&self, name: &str, exprs: Vec<&Expr>, numbers: &N, Ghost(bound): Ghost<nat>) -> (text:
        String)
        requires
            forall|i: int| 0 <= i < exprs@.len() ==> size((#[trigger] exprs@[i])@) < bound,
        ensures
            parenthesizes(numbers, name@, exprs@, text@),
        decreases bound, 0nat,
    {
        let mut res = String::new();
        res.append("(");
        res.append(name);
        let ghost texts: Seq<Seq<char>> = Seq::empty();
        let mut index: usize = 0;
        proof {
            assert(res@ =~= "("@ + name@ + joined(texts));
        }
        while index < exprs.len()
            invariant
                index <= exprs@.len(),
                texts.len() == index,
                forall|i: int| 0 <= i < exprs@.len() ==> size((#[trigger] exprs@[i])@) < bound,
                forall|i: int| 0 <= i < texts.len() ==> renders(numbers, (#[trigger] exprs@[i])@, texts[i]),
                res@ == "("@ + name@ + joined(texts),
            decreases exprs@.len() - index,
        {
            res.append(" ");
            let inside = self.handle(exprs[index], numbers);
            res.append(inside.as_str());
            proof {
                let grown = texts.push(inside@);
                assert(grown.drop_last() =~= texts);
                assert(res@ =~= "("@ + name@ + joined(grown));
                texts = grown;
            }
            index += 1;
        }
        res.append(")");
        proof {
            assert(all_parts(texts));
        }
        res
    }

    fn visit_unary_expr<N: Numbers>(&self, token: &Token, expr: &Expr, numbers: &N) -> (text: String)
        ensures
            wraps(numbers, ExprView::Unary(token@, Box::new(expr@)), text@),
        decreases size(expr@) + 1, 1nat,
    {
        let text = self.parenthesize(token.lexeme.as_str(), vec![expr], numbers, Ghost(size(expr@) + 1));
        proof {
            let texts = choose|texts: Seq<Seq<char>>|
                #![trigger all_parts(texts)]
                all_parts(texts) && texts.len() == 1 && renders(numbers, expr@, texts[0]) && text@
                    == parenthesized(token@.lexeme, texts);
            assert(part(texts[0]));
            assert(texts =~= seq![texts[0]]);
        }
        text
    }

    fn visit_binary_expr<N: Numbers>(&self, left: &Expr, token: &Token, right: &Expr, numbers: &N) -> (text:
        String)
        ensures
            joins(numbers, ExprView::Binary(Box::new(left@), token@, Box::new(right@)), text@),
        decreases size(left@) + size(right@) + 1, 1nat,
    {
        let text = self.parenthesize(
            token.lexeme.as_str(),
            vec![left, right],
            numbers,
            Ghost(size(left@) + size(right@) + 1),
        );
        proof {
            let texts = choose|texts: Seq<Seq<char>>|
                #![trigger all_parts(texts)]
                all_parts(texts) && texts.len() == 2 && renders(numbers, left@, texts[0]) && renders(
                    numbers,
                    right@,
                    texts[1],
                ) && text@ == parenthesized(token@.lexeme, texts);
            assert(parts(texts[0], texts[1]));
            assert(texts =~= seq![texts[0], texts[1]]);
        }
        text
    }

    fn visit_literal_expr<N: Numbers>(&self, literal: &LiteralType, numbers: &N) -> (text: String)
        ensures
            renders_literal(numbers, literal@, text@),
    {
        match literal {
            LiteralType::LString(val) => val.clone(),
            LiteralType::LNumber(val) => numbers.format(*val),
            LiteralType::LBoolean(val) => if *val {
                "true".to_owned()
            } else {
                "false".to_owned()
            },
            LiteralType::LNil => "nil".to_owned(),
        }
    }

    fn visit_grouping_expr<N: Numbers>(&self, expr: &Expr, numbers: &N) -> (text: String)
        ensures
            wraps(numbers, ExprView::Grouping(Box::new(expr@)), text@),
        decreases size(expr@) + 1, 1nat,
    {
        let text = self.parenthesize("group", vec![expr], numbers, Ghost(size(expr@) + 1));
        proof {
            let texts = choose|texts: Seq<Seq<char>>|
                #![trigger all_parts(texts)]
                all_parts(texts) && texts.len() == 1 && renders(numbers, expr@, texts[0]) && text@
                    == parenthesized("group"@, texts);
            assert(part(texts[0]));
            assert(texts =~= seq![texts[0]]);
        }
        text
    }

    fn visit_variable_expr(&self, token: &Token) -> (text: String)
        ensures
            text@ == token@.lexeme,
    {
        token.lexeme.clone()
    }

    fn visit_assign_expr<N: Numbers>(&self, token: &Token, expr: &Expr, numbers: &N) -> (text: String)
        ensures
            wraps(numbers, ExprView::Assign(token@, Box::new(expr@)), text@),
        decreases size(expr@) + 1, 1nat,
    {
        let mut name = "= ".to_owned();
        name.append(token.lexeme.as_str());
        let text = self.parenthesize(name.as_str(), vec![expr], numbers, Ghost(size(expr@) + 1));
        proof {
            let texts = choose|texts: Seq<Seq<char>>|
                #![trigger all_parts(texts)]
                all_parts(texts) && texts.len() == 1 && renders(numbers, expr@, texts[0]) && text@
                    == parenthesized("= "@ + token@.lexeme, texts);
            assert(part(texts[0]));
            assert(texts =~= seq![texts[0]]);
        }
        text
    }
}

} // verus!
