//! Errors met while running a program.
use vstd::prelude::*;
use crate::errors::{at_pos, push_at_pos, framed, framed_text, layout, location_note, location_text, report_layout};
use crate::lexer::token::TokenKind;
use crate::paint::{black_on_green_code, red_bold, red_bold_code, shows, yellow, yellow_code};
use crate::text::{decimal, empty_string, push_decimal, push_str};

verus! {

/// What can go wrong while running a program.
#[derive(Debug)]
pub enum InterpreterError {
    UnsupportedUnaryOp { op: TokenKind },
    UnsupportedBinaryOp { op: TokenKind },
    UnexpectedLiteral { kind: TokenKind },
    UnexpectedExpr,
    UndefinedVariable { name: String, line: usize, col: usize },
    UndefinedFunction { name: String, line: usize, col: usize },
    UndefinedProperty { name: String, line: usize, col: usize },
    ArityMismatch { expected: usize, got: usize },
    InvalidParameter { name: String },
    DivisionByZero,
    ArithmeticError { message: String },
    InvalidStatement { message: String },
}

impl InterpreterError {
    /// Line and column of the error, for an undefined name.
    pub open spec fn spec_location(self) -> Option<(usize, usize)> {
        match self {
            InterpreterError::UndefinedVariable { line, col, .. } => Some((line, col)),
            InterpreterError::UndefinedFunction { line, col, .. } => Some((line, col)),
            InterpreterError::UndefinedProperty { line, col, .. } => Some((line, col)),
            _ => None,
        }
    }

    /// Whether `d` is a text that `detail` may give.
    pub open spec fn is_detail(self, d: Seq<char>) -> bool {
        match self {
            InterpreterError::UnsupportedUnaryOp { op } =>
                framed(d, "Unsupported unary operator '"@, yellow_code(), op.spec_text(), "'"@),
            InterpreterError::UnsupportedBinaryOp { op } =>
                framed(d, "Unsupported binary operator '"@, yellow_code(), op.spec_text(), "'"@),
            InterpreterError::UnexpectedLiteral { kind } =>
                framed(d, "Unexpected literal kind '"@, yellow_code(), kind.spec_text(), "'"@),
            InterpreterError::UnexpectedExpr => d == "Unexpected expression"@,
            InterpreterError::UndefinedVariable { name, .. } =>
                framed(d, "Undefined variable '"@, yellow_code(), name@, "'"@),
            InterpreterError::UndefinedFunction { name, .. } =>
                framed(d, "Undefined function '"@, yellow_code(), name@, "'"@),
            InterpreterError::UndefinedProperty { name, .. } =>
                framed(d, "Undefined property '"@, yellow_code(), name@, "'"@),
            InterpreterError::ArityMismatch { expected, got } =>
                exists|e: Seq<char>, g: Seq<char>|
                    shows(yellow_code(), decimal(expected as nat), e)
                    && shows(yellow_code(), decimal(got as nat), g)
                    && d == "Expected "@ + e + " argument(s) but received "@ + g,
            InterpreterError::InvalidParameter { name } =>
                framed(d, "Invalid parameter '"@, yellow_code(), name@, "'"@),
            InterpreterError::DivisionByZero => d == "Division by zero"@,
            InterpreterError::ArithmeticError { message } => d == "Arithmetic error: "@ + message@,
            InterpreterError::InvalidStatement { message } => d == "Invalid statement: "@ + message@,
        }
    }

    /// Line and column of the error, for an undefined name.
    pub fn location(&self) -> (r: Option<(usize, usize)>)
        ensures
            r == self.spec_location(),
    {
        match self {
            InterpreterError::UndefinedVariable { line, col, .. } => Some((*line, *col)),
            InterpreterError::UndefinedFunction { line, col, .. } => Some((*line, *col)),
            InterpreterError::UndefinedProperty { line, col, .. } => Some((*line, *col)),
            _ => None,
        }
    }

    /// The message of the error, without its position.
    pub fn detail(&self) -> (r: String)
        ensures
            self.is_detail(r@),
    {
        match self {
            InterpreterError::UnsupportedUnaryOp { op } => {
                let t = op.text();
                let y = yellow(t.as_str());
                framed_text("Unsupported unary operator '", y, "'", Ghost(yellow_code()), Ghost(t@))
            },
            InterpreterError::UnsupportedBinaryOp { op } => {
                let t = op.text();
                let y = yellow(t.as_str());
                framed_text("Unsupported binary operator '", y, "'", Ghost(yellow_code()), Ghost(t@))
            },
            InterpreterError::UnexpectedLiteral { kind } => {
                let t = kind.text();
                let y = yellow(t.as_str());
                framed_text("Unexpected literal kind '", y, "'", Ghost(yellow_code()), Ghost(t@))
            },
            InterpreterError::UnexpectedExpr => plain("Unexpected expression"),
            InterpreterError::UndefinedVariable { name, .. } => {
                let y = yellow(name.as_str());
                framed_text("Undefined variable '", y, "'", Ghost(yellow_code()), Ghost(name@))
            },
            InterpreterError::UndefinedFunction { name, .. } => {
                let y = yellow(name.as_str());
                framed_text("Undefined function '", y, "'", Ghost(yellow_code()), Ghost(name@))
            },
            InterpreterError::UndefinedProperty { name, .. } => {
                let y = yellow(name.as_str());
                framed_text("Undefined property '", y, "'", Ghost(yellow_code()), Ghost(name@))
            },
            InterpreterError::ArityMismatch { expected, got } => {
                let mut es = empty_string();
                push_decimal(&mut es, *expected);
                let mut gs = empty_string();
                push_decimal(&mut gs, *got);
                let e = yellow(es.as_str());
                let g = yellow(gs.as_str());
                let mut s = empty_string();
                push_str(&mut s, "Expected ");
                push_str(&mut s, e.as_str());
                push_str(&mut s, " argument(s) but received ");
                push_str(&mut s, g.as_str());
                assert(shows(yellow_code(), decimal(*expected as nat), e@)
                    && shows(yellow_code(), decimal(*got as nat), g@)
                    && s@ == "Expected "@ + e@ + " argument(s) but received "@ + g@);
                s
            },
            InterpreterError::InvalidParameter { name } => {
                let y = yellow(name.as_str());
                framed_text("Invalid parameter '", y, "'", Ghost(yellow_code()), Ghost(name@))
            },
            InterpreterError::DivisionByZero => plain("Division by zero"),
            InterpreterError::ArithmeticError { message } => {
                let mut s = plain("Arithmetic error: ");
                push_str(&mut s, message.as_str());
                s
            },
            InterpreterError::InvalidStatement { message } => {
                let mut s = plain("Invalid statement: ");
                push_str(&mut s, message.as_str());
                s
            },
        }
    }

    /// The error's message: what went wrong and, for an undefined name,
    /// where; without colours.
    pub open spec fn spec_message(self) -> Seq<char> {
        match self {
            InterpreterError::UnsupportedUnaryOp { op } => "Unsupported unary operator '"@ + op.spec_text() + "'"@,
            InterpreterError::UnsupportedBinaryOp { op } => "Unsupported binary operator '"@ + op.spec_text() + "'"@,
            InterpreterError::UnexpectedLiteral { kind } => "Unexpected literal kind '"@ + kind.spec_text() + "'"@,
            InterpreterError::UnexpectedExpr => "Unexpected expression"@,
            InterpreterError::UndefinedVariable { name, line, col } =>
                "Undefined variable '"@ + name@ + "'"@ + at_pos(line, col),
            InterpreterError::UndefinedFunction { name, line, col } =>
                "Undefined function '"@ + name@ + "'"@ + at_pos(line, col),
            InterpreterError::UndefinedProperty { name, line, col } =>
                "Undefined property '"@ + name@ + "'"@ + at_pos(line, col),
            InterpreterError::ArityMismatch { expected, got } =>
                "Arity mismatch: expected "@ + decimal(expected as nat) + " argument(s) but received "@ + decimal(got as nat),
            InterpreterError::InvalidParameter { name } => "Invalid parameter '"@ + name@ + "'"@,
            InterpreterError::DivisionByZero => "Division by zero"@,
            InterpreterError::ArithmeticError { message } => "Arithmetic error: "@ + message@,
            InterpreterError::InvalidStatement { message } => "Invalid statement: "@ + message@,
        }
    }

    /// The error's message (see `spec_message`).
    pub fn message(&self) -> (r: String)
        ensures
            r@ == self.spec_message(),
    {
        let mut s = empty_string();
        match self {
            InterpreterError::UnsupportedUnaryOp { op } => {
                push_str(&mut s, "Unsupported unary operator '");
                let t = op.text();
                push_str(&mut s, t.as_str());
                push_str(&mut s, "'");
            },
            InterpreterError::UnsupportedBinaryOp { op } => {
                push_str(&mut s, "Unsupported binary operator '");
                let t = op.text();
                push_str(&mut s, t.as_str());
                push_str(&mut s, "'");
            },
            InterpreterError::UnexpectedLiteral { kind } => {
                push_str(&mut s, "Unexpected literal kind '");
                let t = kind.text();
                push_str(&mut s, t.as_str());
                push_str(&mut s, "'");
            },
            InterpreterError::UnexpectedExpr => push_str(&mut s, "Unexpected expression"),
            InterpreterError::UndefinedVariable { name, line, col } => {
                push_str(&mut s, "Undefined variable '");
                push_str(&mut s, name.as_str());
                push_str(&mut s, "'");
                push_at_pos(&mut s, *line, *col);
            },
            InterpreterError::UndefinedFunction { name, line, col } => {
                push_str(&mut s, "Undefined function '");
                push_str(&mut s, name.as_str());
                push_str(&mut s, "'");
                push_at_pos(&mut s, *line, *col);
            },
            InterpreterError::UndefinedProperty { name, line, col } => {
                push_str(&mut s, "Undefined property '");
                push_str(&mut s, name.as_str());
                push_str(&mut s, "'");
                push_at_pos(&mut s, *line, *col);
            },
            InterpreterError::ArityMismatch { expected, got } => {
                push_str(&mut s, "Arity mismatch: expected ");
                push_decimal(&mut s, *expected);
                push_str(&mut s, " argument(s) but received ");
                push_decimal(&mut s, *got);
            },
            InterpreterError::InvalidParameter { name } => {
                push_str(&mut s, "Invalid parameter '");
                push_str(&mut s, name.as_str());
                push_str(&mut s, "'");
            },
            InterpreterError::DivisionByZero => push_str(&mut s, "Division by zero"),
            InterpreterError::ArithmeticError { message } => {
                push_str(&mut s, "Arithmetic error: ");
                push_str(&mut s, message.as_str());
            },
            InterpreterError::InvalidStatement { message } => {
                push_str(&mut s, "Invalid statement: ");
                push_str(&mut s, message.as_str());
            },
        }
        s
    }


    /// Whether `r` is a report of the error as `report` writes it.
    pub open spec fn is_report(self, r: Seq<char>) -> bool {
        exists|p: Seq<char>, d: Seq<char>|
            shows(red_bold_code(), "Runtime error"@, p) && self.is_detail(d) && match self.spec_location() {
                Some((line, col)) => exists|l: Seq<char>|
                    shows(black_on_green_code(), location_text(line, col), l)
                    && r == report_layout(p, d, Some(l)),
                None => r == report_layout(p, d, None),
            }
    }

    /// The full report of the error as it is written to the terminal:
    /// `Runtime error` in bold red, the detail, and the position note when
    /// the error has a position.
    pub fn report(&self) -> (r: String)
        ensures
            self.is_report(r@),
    {
        let prefix = red_bold("Runtime error");
        let detail = self.detail();
        let ghost (p, d) = (prefix@, detail@);
        match self.location() {
            Some((line, col)) => {
                let loc = location_note(line, col);
                let ghost l = loc@;
                let r = layout(prefix, detail, Some(loc));
                assert(shows(black_on_green_code(), location_text(line, col), l)
                    && r@ == report_layout(p, d, Some(l)));
                r
            },
            None => layout(prefix, detail, None),
        }
    }
}

/// A string holding `s`.
fn plain(s: &str) -> (r: String)
    ensures
        r@ == s@,
{
    let mut r = empty_string();
    push_str(&mut r, s);
    r
}

} // verus!
