//! Expressions of the language.
use vstd::prelude::*;
use crate::lexer::token::Token;

verus! {

/// An expression.
///
/// A variable, an assignment and a compound assignment carry the `id` of
/// the identifier's token: its index in the token sequence the parser read.
/// Distinct occurrences of names have distinct ids, which the resolver uses
/// to record at which scope depth each one is found.
#[derive(Debug, PartialEq)]
pub enum Expr {
    Literal(Token),
    Var { name: Token, id: usize },
    Unary { operator: Token, right: Box<Expr> },
    PostUnary { operator: Token, left: Box<Expr> },
    Binary { left: Box<Expr>, operator: Token, right: Box<Expr> },
    Group { expr: Box<Expr> },
    Assign { name: String, value: Box<Expr>, line: usize, col: usize, id: usize },
    CompoundAssign { name: String, value: Box<Expr>, op: Token, id: usize },
    Call { callee: Box<Expr>, arguments: Vec<Box<Expr>>, line: usize, col: usize },
    Get { object: Box<Expr>, name: String, line: usize, col: usize },
    SetProperty { object: Box<Expr>, name: String, value: Box<Expr> },
    Array { elements: Vec<Box<Expr>> },
    Hashmap { fields: Vec<(String, Box<Expr>)> },
    Index { object: Box<Expr>, index: Box<Expr> },
    IndexSet { object: Box<Expr>, index: Box<Expr>, value: Box<Expr>, line: usize, col: usize },
}

/// An expression as a mathematical value: lists are sequences.
pub enum SpecExpr {
    Literal(Token),
    Var { name: Token, id: usize },
    Unary { operator: Token, right: Box<SpecExpr> },
    PostUnary { operator: Token, left: Box<SpecExpr> },
    Binary { left: Box<SpecExpr>, operator: Token, right: Box<SpecExpr> },
    Group { expr: Box<SpecExpr> },
    Assign { name: String, value: Box<SpecExpr>, line: usize, col: usize, id: usize },
    CompoundAssign { name: String, value: Box<SpecExpr>, op: Token, id: usize },
    Call { callee: Box<SpecExpr>, arguments: Seq<SpecExpr>, line: usize, col: usize },
    Get { object: Box<SpecExpr>, name: String, line: usize, col: usize },
    SetProperty { object: Box<SpecExpr>, name: String, value: Box<SpecExpr> },
    Array { elements: Seq<SpecExpr> },
    Hashmap { fields: Seq<(String, SpecExpr)> },
    Index { object: Box<SpecExpr>, index: Box<SpecExpr> },
    IndexSet { object: Box<SpecExpr>, index: Box<SpecExpr>, value: Box<SpecExpr>, line: usize, col: usize },
}

/// The view of an expression.
pub open spec fn expr_view(e: Expr) -> SpecExpr
    decreases e,
{
    match e {
        Expr::Literal(t) => SpecExpr::Literal(t),
        Expr::Var { name, id } => SpecExpr::Var { name, id },
        Expr::Unary { operator, right } => SpecExpr::Unary { operator, right: Box::new(expr_view(*right)) },
        Expr::PostUnary { operator, left } => SpecExpr::PostUnary { operator, left: Box::new(expr_view(*left)) },
        Expr::Binary { left, operator, right } =>
            SpecExpr::Binary { left: Box::new(expr_view(*left)), operator, right: Box::new(expr_view(*right)) },
        Expr::Group { expr } => SpecExpr::Group { expr: Box::new(expr_view(*expr)) },
        Expr::Assign { name, value, line, col, id } =>
            SpecExpr::Assign { name, value: Box::new(expr_view(*value)), line, col, id },
        Expr::CompoundAssign { name, value, op, id } =>
            SpecExpr::CompoundAssign { name, value: Box::new(expr_view(*value)), op, id },
        Expr::Call { callee, arguments, line, col } =>
            SpecExpr::Call { callee: Box::new(expr_view(*callee)), arguments: exprs_view(arguments@), line, col },
        Expr::Get { object, name, line, col } => SpecExpr::Get { object: Box::new(expr_view(*object)), name, line, col },
        Expr::SetProperty { object, name, value } =>
            SpecExpr::SetProperty { object: Box::new(expr_view(*object)), name, value: Box::new(expr_view(*value)) },
        Expr::Array { elements } => SpecExpr::Array { elements: exprs_view(elements@) },
        Expr::Hashmap { fields } => SpecExpr::Hashmap { fields: fields_view(fields@) },
        Expr::Index { object, index } =>
            SpecExpr::Index { object: Box::new(expr_view(*object)), index: Box::new(expr_view(*index)) },
        Expr::IndexSet { object, index, value, line, col } => SpecExpr::IndexSet {
            object: Box::new(expr_view(*object)),
            index: Box::new(expr_view(*index)),
            value: Box::new(expr_view(*value)),
            line,
            col,
        },
    }
}

/// The views of a list of expressions.
pub open spec fn exprs_view(s: Seq<Box<Expr>>) -> Seq<SpecExpr>
    decreases s,
{
    if s.len() == 0 {
        Seq::empty()
    } else {
        exprs_view(s.drop_last()).push(expr_view(*s.last()))
    }
}

/// The views of the fields of a hashmap literal.
pub open spec fn fields_view(s: Seq<(String, Box<Expr>)>) -> Seq<(String, SpecExpr)>
    decreases s,
{
    if s.len() == 0 {
        Seq::empty()
    } else {
        fields_view(s.drop_last()).push((s.last().0, expr_view(*s.last().1)))
    }
}

impl View for Expr {
    type V = SpecExpr;

    open spec fn view(&self) -> SpecExpr {
        expr_view(*self)
    }
}

/// Pushing onto a list pushes the view.
pub proof fn lemma_exprs_view_push(s: Seq<Box<Expr>>, e: Box<Expr>)
    ensures
        exprs_view(s.push(e)) == exprs_view(s).push(expr_view(*e)),
{
    assert(s.push(e).drop_last() =~= s);
}

/// Pushing onto a list of fields pushes the view.
pub proof fn lemma_fields_view_push(s: Seq<(String, Box<Expr>)>, f: (String, Box<Expr>))
    ensures
        fields_view(s.push(f)) == fields_view(s).push((f.0, expr_view(*f.1))),
{
    assert(s.push(f).drop_last() =~= s);
}

} // verus!
