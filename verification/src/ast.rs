//! The syntax tree: expressions and statements.
//!
//! Both are closed sets of variants; each consumer of a tree (the printer,
//! the interpreter) is a function that matches on them.

use crate::scanner::token::{Literal, LiteralType, Token, TokenView};
use vstd::prelude::*;

verus! {

/// An expression.  Each node owns its children.
#[derive(Debug, PartialEq)]
pub enum Expr {
    /// `left operator right`.
    Binary(Box<Expr>, Token, Box<Expr>),
    /// `( inner )`.
    Grouping(Box<Expr>),
    /// A literal value.
    Literal(LiteralType),
    /// `operator operand`.
    Unary(Token, Box<Expr>),
    /// The value of a variable.
    Variable(Token),
    /// `name = value`.
    Assign(Token, Box<Expr>),
}

/// What an [`Expr`] stands for.
pub enum ExprView {
    Binary(Box<ExprView>, TokenView, Box<ExprView>),
    Grouping(Box<ExprView>),
    Literal(Literal),
    Unary(TokenView, Box<ExprView>),
    Variable(TokenView),
    Assign(TokenView, Box<ExprView>),
}

impl Expr {
    /// The tree that this expression stands for.
    pub open spec fn tree(&self) -> ExprView
        decreases self,
    {
        match self {
            Expr::Binary(left, operator, right) => ExprView::Binary(
                Box::new(left.tree()),
                operator@,
                Box::new(right.tree()),
            ),
            Expr::Grouping(inner) => ExprView::Grouping(Box::new(inner.tree())),
            Expr::Literal(value) => ExprView::Literal(value@),
            Expr::Unary(operator, operand) => ExprView::Unary(operator@, Box::new(operand.tree())),
            Expr::Variable(name) => ExprView::Variable(name@),
            Expr::Assign(name, value) => ExprView::Assign(name@, Box::new(value.tree())),
        }
    }
}

impl View for Expr {
    type V = ExprView;

    open spec fn view(&self) -> ExprView {
        self.tree()
    }
}

impl DeepView for Expr {
    type V = ExprView;

    open spec fn deep_view(&self) -> ExprView {
        self@
    }
}

impl Clone for Expr {
    fn clone(&self) -> (copy: Self)
        ensures
            copy@ == self@,
        decreases self,
    {
        match self {
            Expr::Binary(left, operator, right) => Expr::Binary(
                Box::new((**left).clone()),
                operator.clone(),
                Box::new((**right).clone()),
            ),
            Expr::Grouping(inner) => Expr::Grouping(Box::new((**inner).clone())),
            Expr::Literal(value) => Expr::Literal(value.clone()),
            Expr::Unary(operator, operand) => Expr::Unary(
                operator.clone(),
                Box::new((**operand).clone()),
            ),
            Expr::Variable(name) => Expr::Variable(name.clone()),
            Expr::Assign(name, value) => Expr::Assign(name.clone(), Box::new((**value).clone())),
        }
    }
}

/// The number of nodes of an expression.
pub open spec fn size(expr: ExprView) -> nat
    decreases expr,
{
    match expr {
        ExprView::Binary(left, _, right) => 1 + size(*left) + size(*right),
        ExprView::Grouping(inner) => 1 + size(*inner),
        ExprView::Literal(_) => 1,
        ExprView::Unary(_, operand) => 1 + size(*operand),
        ExprView::Variable(_) => 1,
        ExprView::Assign(_, value) => 1 + size(*value),
    }
}

/// A statement.
#[derive(Debug, PartialEq)]
pub enum Stmt {
    /// An expression, evaluated for its effects.
    Expression(Box<Expr>),
    /// `print` of an expression.
    Print(Box<Expr>),
    /// `var name`, with or without an initializer.
    Var(Token, Option<Box<Expr>>),
}

/// What a [`Stmt`] stands for.
pub enum StmtView {
    Expression(ExprView),
    Print(ExprView),
    Var(TokenView, Option<ExprView>),
}

impl View for Stmt {
    type V = StmtView;

    open spec fn view(&self) -> StmtView {
        match self {
            Stmt::Expression(expr) => StmtView::Expression(expr@),
            Stmt::Print(expr) => StmtView::Print(expr@),
            Stmt::Var(name, initializer) => StmtView::Var(
                name@,
                match initializer {
                    Some(expr) => Some(expr@),
                    None => None,
                },
            ),
        }
    }
}

impl DeepView for Stmt {
    type V = StmtView;

    open spec fn deep_view(&self) -> StmtView {
        self@
    }
}

} // verus!
