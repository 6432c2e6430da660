//! Statements of the language.
use vstd::prelude::*;
use std::rc::Rc;
use crate::lexer::token::Token;
use crate::parser::expression::{Expr, SpecExpr, expr_view};

verus! {

/// A statement.
#[derive(Debug, PartialEq)]
pub enum Stmt {
    Expr(Expr),
    Var { name: String, initializer: Option<Expr> },
    Block(Vec<Box<Stmt>>),
    If { condition: Expr, if_body: Box<Stmt>, else_body: Option<Box<Stmt>> },
    Loop { count: Expr, body: Box<Stmt> },
    LoopIf { condition: Expr, body: Box<Stmt> },
    LoopIn { name: String, object: Expr, body: Box<Stmt> },
    Func { name: String, parameters: Vec<Token>, body: Rc<Stmt> },
    Return(Expr),
    Break,
    Continue,
    Class { name: String, methods: Vec<Stmt>, superclass: Option<Expr> },
}

/// A statement as a mathematical value: lists are sequences.
pub enum SpecStmt {
    Expr(SpecExpr),
    Var { name: String, initializer: Option<SpecExpr> },
    Block(Seq<SpecStmt>),
    If { condition: SpecExpr, if_body: Box<SpecStmt>, else_body: Option<Box<SpecStmt>> },
    Loop { count: SpecExpr, body: Box<SpecStmt> },
    LoopIf { condition: SpecExpr, body: Box<SpecStmt> },
    LoopIn { name: String, object: SpecExpr, body: Box<SpecStmt> },
    Func { name: String, parameters: Seq<Token>, body: Box<SpecStmt> },
    Return(SpecExpr),
    Break,
    Continue,
    Class { name: String, methods: Seq<SpecStmt>, superclass: Option<SpecExpr> },
}

/// The view of a statement.
pub open spec fn stmt_view(s: Stmt) -> SpecStmt
    decreases s,
{
    match s {
        Stmt::Expr(e) => SpecStmt::Expr(expr_view(e)),
        Stmt::Var { name, initializer } => SpecStmt::Var {
            name,
            initializer: match initializer {
                Some(e) => Some(expr_view(e)),
                None => None,
            },
        },
        Stmt::Block(stmts) => SpecStmt::Block(boxed_stmts_view(stmts@)),
        Stmt::If { condition, if_body, else_body } => SpecStmt::If {
            condition: expr_view(condition),
            if_body: Box::new(stmt_view(*if_body)),
            else_body: match else_body {
                Some(b) => Some(Box::new(stmt_view(*b))),
                None => None,
            },
        },
        Stmt::Loop { count, body } => SpecStmt::Loop { count: expr_view(count), body: Box::new(stmt_view(*body)) },
        Stmt::LoopIf { condition, body } =>
            SpecStmt::LoopIf { condition: expr_view(condition), body: Box::new(stmt_view(*body)) },
        Stmt::LoopIn { name, object, body } =>
            SpecStmt::LoopIn { name, object: expr_view(object), body: Box::new(stmt_view(*body)) },
        Stmt::Func { name, parameters, body } =>
            SpecStmt::Func { name, parameters: parameters@, body: Box::new(stmt_view(*body)) },
        Stmt::Return(e) => SpecStmt::Return(expr_view(e)),
        Stmt::Break => SpecStmt::Break,
        Stmt::Continue => SpecStmt::Continue,
        Stmt::Class { name, methods, superclass } => SpecStmt::Class {
            name,
            methods: stmts_view(methods@),
            superclass: match superclass {
                Some(e) => Some(expr_view(e)),
                None => None,
            },
        },
    }
}

/// The views of a list of boxed statements.
pub open spec fn boxed_stmts_view(s: Seq<Box<Stmt>>) -> Seq<SpecStmt>
    decreases s,
{
    if s.len() == 0 {
        Seq::empty()
    } else {
        boxed_stmts_view(s.drop_last()).push(stmt_view(*s.last()))
    }
}

/// The views of a list of statements.
pub open spec fn stmts_view(s: Seq<Stmt>) -> Seq<SpecStmt>
    decreases s,
{
    if s.len() == 0 {
        Seq::empty()
    } else {
        stmts_view(s.drop_last()).push(stmt_view(s.last()))
    }
}

impl View for Stmt {
    type V = SpecStmt;

    open spec fn view(&self) -> SpecStmt {
        stmt_view(*self)
    }
}

/// Pushing onto a list pushes the view.
pub proof fn lemma_stmts_view_push(s: Seq<Stmt>, x: Stmt)
    ensures
        stmts_view(s.push(x)) == stmts_view(s).push(stmt_view(x)),
{
    assert(s.push(x).drop_last() =~= s);
}

/// Pushing onto a list of boxed statements pushes the view.
pub proof fn lemma_boxed_stmts_view_push(s: Seq<Box<Stmt>>, x: Box<Stmt>)
    ensures
        boxed_stmts_view(s.push(x)) == boxed_stmts_view(s).push(stmt_view(*x)),
{
    assert(s.push(x).drop_last() =~= s);
}

} // verus!
