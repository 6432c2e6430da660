//! The grammar of the language, as the parser reads it.
//!
//! Each function below reads one construct from position `p` of a token
//! sequence and gives what was read with the position just past it, or the
//! error met. An end-of-file token, or the end of the sequence, ends the
//! input. Wherever a construct goes on after a part that was read, the
//! text checks that the part moved forward (`fwd`); every part does (see
//! `Parser`'s contracts), so these checks only make the definitions
//! well-founded.
use vstd::prelude::*;
use crate::errors::parse_error::SpecParseError;
use crate::lexer::token::{Token, TokenKind};
use crate::parser::expression::SpecExpr;
use crate::parser::statement::SpecStmt;

verus! {

/// What reading a construct gives: the construct and the next position.
pub type Read<T> = Result<(T, int), SpecParseError>;

/// The most arguments of a call, and the most parameters of a function.
pub const MAX_ARGUMENTS: usize = 255;

/// `q` lies past `p` and within `n`.
pub open spec fn fwd(p: int, q: int, n: int) -> bool {
    p < q <= n
}

/// The token at `p`, unless the input has ended there.
pub open spec fn peek(toks: Seq<Token>, p: int) -> Option<Token> {
    if 0 <= p < toks.len() && !(toks[p].kind is EOF) {
        Some(toks[p])
    } else {
        None
    }
}

/// The token at `p` is of the plain kind `k`.
pub open spec fn at(toks: Seq<Token>, p: int, k: TokenKind) -> bool {
    peek(toks, p) matches Some(t) && t.kind == k
}

/// The error for a missing token, at the token found instead.
pub open spec fn expected(t: Token, message: Seq<char>) -> SpecParseError {
    SpecParseError::ExpectedToken { message, line: t.span.line, col: t.span.column }
}

/// The error for a statement that breaks a rule, at token `t`.
pub open spec fn invalid(t: Token, message: Seq<char>) -> SpecParseError {
    SpecParseError::InvalidStatement { message, line: t.span.line, col: t.span.column }
}

/// The error for an over-long list, at the token after the comma.
pub open spec fn too_many(toks: Seq<Token>, q: int, message: Seq<char>) -> SpecParseError {
    match peek(toks, q) {
        Some(t) => invalid(t, message),
        None => SpecParseError::UnexpectedEof,
    }
}

/// Reads a token of the plain kind `k`, or fails with `message`.
pub open spec fn consume(toks: Seq<Token>, p: int, k: TokenKind, message: Seq<char>) -> Result<int, SpecParseError> {
    match peek(toks, p) {
        Some(t) => if t.kind == k { Ok(p + 1) } else { Err(expected(t, message)) },
        None => Err(SpecParseError::UnexpectedEof),
    }
}

/// Reads an identifier token, or fails with `message`.
pub open spec fn consume_ident(toks: Seq<Token>, p: int, message: Seq<char>) -> Read<Token> {
    match peek(toks, p) {
        Some(t) => if t.kind is IDENT { Ok((t, p + 1)) } else { Err(expected(t, message)) },
        None => Err(SpecParseError::UnexpectedEof),
    }
}

/// Reads the name after a keyword (`var`, `func`, `class` or `loop`).
pub open spec fn name_after(toks: Seq<Token>, p: int, keyword: Seq<char>) -> Read<String> {
    match peek(toks, p) {
        Some(t) => match t.kind {
            TokenKind::IDENT(v) => Ok((v, p + 1)),
            _ => Err(SpecParseError::ExpectedName { keyword, line: t.span.line, col: t.span.column }),
        },
        None => Err(SpecParseError::UnexpectedEof),
    }
}

// ---------------------------------------------------------------------------
// Expressions
// ---------------------------------------------------------------------------

/// An expression.
pub open spec fn expression(toks: Seq<Token>, p: int) -> Read<SpecExpr>
    decreases toks.len() - p, 26nat,
{
    assignment(toks, p)
}

/// A compound assignment operator at `p`.
pub open spec fn compound_at(toks: Seq<Token>, p: int) -> bool {
    at(toks, p, TokenKind::PLUS_EQ) || at(toks, p, TokenKind::MINUS_EQ) || at(toks, p, TokenKind::STAR_EQ)
        || at(toks, p, TokenKind::SLASH_EQ) || at(toks, p, TokenKind::MOD_EQ)
}

/// An assignment (to a variable, a property or an element), a compound
/// assignment, or an equality expression. The value of an assignment is
/// read before its target is checked. A compound assignment whose target is
/// not a variable reads its value and keeps the target alone.
pub open spec fn assignment(toks: Seq<Token>, p: int) -> Read<SpecExpr>
    decreases toks.len() - p, 25nat,
{
    match level(toks, p, 4) {
        Err(e) => Err(e),
        Ok((target, p1)) => if !fwd(p, p1, toks.len() as int) {
            Err(SpecParseError::UnexpectedEof)
        } else if at(toks, p1, TokenKind::EQUAL) {
            let equals = toks[p1];
            match assignment(toks, p1 + 1) {
                Err(e) => Err(e),
                Ok((value, p2)) => match target {
                    SpecExpr::Var { name: tok, id } => match tok.kind {
                        TokenKind::IDENT(name) => Ok((SpecExpr::Assign {
                            name,
                            value: Box::new(value),
                            line: tok.span.line,
                            col: tok.span.column,
                            id,
                        }, p2)),
                        _ => Err(invalid(equals, "Invalid assignment target"@)),
                    },
                    SpecExpr::Get { object, name, .. } =>
                        Ok((SpecExpr::SetProperty { object, name, value: Box::new(value) }, p2)),
                    SpecExpr::Index { object, index } => Ok((SpecExpr::IndexSet {
                        object,
                        index,
                        value: Box::new(value),
                        line: equals.span.line,
                        col: equals.span.column,
                    }, p2)),
                    _ => Err(invalid(equals, "Invalid assignment target"@)),
                },
            }
        } else if compound_at(toks, p1) {
            let op = toks[p1];
            match assignment(toks, p1 + 1) {
                Err(e) => Err(e),
                Ok((value, p2)) => match target {
                    SpecExpr::Var { name: tok, id } => match tok.kind {
                        TokenKind::IDENT(name) =>
                            Ok((SpecExpr::CompoundAssign { name, value: Box::new(value), op, id }, p2)),
                        _ => Ok((target, p2)),
                    },
                    _ => Ok((target, p2)),
                },
            }
        } else {
            Ok((target, p1))
        }
    }
}

/// The operators of binary level `n`, from the loosest (4) to the
/// tightest (0): equality, logical, comparison (with `in`), additive,
/// multiplicative. All associate to the left.
pub open spec fn binary_op(n: nat, k: TokenKind) -> bool {
    if n == 4 {
        k == TokenKind::NOT_EQ || k == TokenKind::EQ_EQ
    } else if n == 3 {
        k == TokenKind::AND || k == TokenKind::OR
    } else if n == 2 {
        k == TokenKind::LESS || k == TokenKind::GREAT || k == TokenKind::LESS_EQ || k == TokenKind::GREAT_EQ
            || k == TokenKind::IN
    } else if n == 1 {
        k == TokenKind::PLUS || k == TokenKind::MINUS
    } else {
        k == TokenKind::STAR || k == TokenKind::SLASH || k == TokenKind::MOD
    }
}

/// An operand of binary level `n`: an expression of the next tighter
/// level, or a unary expression below level 0.
pub open spec fn operand(toks: Seq<Token>, p: int, n: nat) -> Read<SpecExpr>
    decreases toks.len() - p, 2 * n + 9,
{
    if n == 0 {
        unary(toks, p)
    } else {
        level(toks, p, (n - 1) as nat)
    }
}

/// An expression of binary level `n`: operands joined by its operators.
pub open spec fn level(toks: Seq<Token>, p: int, n: nat) -> Read<SpecExpr>
    decreases toks.len() - p, 2 * n + 10,
{
    match operand(toks, p, n) {
        Err(e) => Err(e),
        Ok((left, p1)) => if fwd(p, p1, toks.len() as int) {
            level_rest(toks, left, p1, n)
        } else {
            Err(SpecParseError::UnexpectedEof)
        },
    }
}

/// The rest of a binary-level expression whose left part is `left`.
pub open spec fn level_rest(toks: Seq<Token>, left: SpecExpr, p: int, n: nat) -> Read<SpecExpr>
    decreases toks.len() - p, 0nat,
{
    match peek(toks, p) {
        Some(op) => if binary_op(n, op.kind) {
            match operand(toks, p + 1, n) {
                Err(e) => Err(e),
                Ok((right, p2)) => if fwd(p, p2, toks.len() as int) {
                    level_rest(toks, SpecExpr::Binary { left: Box::new(left), operator: op, right: Box::new(right) }, p2, n)
                } else {
                    Err(SpecParseError::UnexpectedEof)
                },
            }
        } else {
            Ok((left, p))
        },
        None => Ok((left, p)),
    }
}

/// A prefix operator (`-`, `!`, `++`, `--`).
pub open spec fn is_prefix_op(k: TokenKind) -> bool {
    k == TokenKind::MINUS || k == TokenKind::NOT || k == TokenKind::INC || k == TokenKind::DEC
}

/// Prefix operators applied to a call expression.
pub open spec fn unary(toks: Seq<Token>, p: int) -> Read<SpecExpr>
    decreases toks.len() - p, 8nat,
{
    match peek(toks, p) {
        Some(op) => if is_prefix_op(op.kind) {
            match unary(toks, p + 1) {
                Err(e) => Err(e),
                Ok((right, p2)) => Ok((SpecExpr::Unary { operator: op, right: Box::new(right) }, p2)),
            }
        } else {
            call(toks, p)
        },
        None => call(toks, p),
    }
}

/// A primary expression followed by calls, property reads, indexing and
/// postfix `++`/`--`.
pub open spec fn call(toks: Seq<Token>, p: int) -> Read<SpecExpr>
    decreases toks.len() - p, 7nat,
{
    match primary(toks, p) {
        Err(e) => Err(e),
        Ok((e, p1)) => if fwd(p, p1, toks.len() as int) {
            call_rest(toks, e, p1)
        } else {
            Err(SpecParseError::UnexpectedEof)
        },
    }
}

/// The suffixes of a call expression whose front part is `e`.
pub open spec fn call_rest(toks: Seq<Token>, e: SpecExpr, p: int) -> Read<SpecExpr>
    decreases toks.len() - p, 0nat,
{
    match peek(toks, p) {
        None => Ok((e, p)),
        Some(t) => if t.kind == TokenKind::OPEN_PAREN {
            match arguments(toks, p + 1, Seq::empty()) {
                Err(err) => Err(err),
                Ok((args, p2)) => if fwd(p, p2, toks.len() as int) {
                    call_rest(toks, SpecExpr::Call {
                        callee: Box::new(e),
                        arguments: args,
                        line: t.span.line,
                        col: t.span.column,
                    }, p2)
                } else {
                    Err(SpecParseError::UnexpectedEof)
                },
            }
        } else if t.kind == TokenKind::DOT {
            match consume_ident(toks, p + 1, "Expect property name after '.'"@) {
                Err(err) => Err(err),
                Ok((name_tok, p2)) => if fwd(p, p2, toks.len() as int) {
                    match name_tok.kind {
                        TokenKind::IDENT(name) => call_rest(toks, SpecExpr::Get {
                            object: Box::new(e),
                            name,
                            line: name_tok.span.line,
                            col: name_tok.span.column,
                        }, p2),
                        _ => call_rest(toks, e, p2),
                    }
                } else {
                    Err(SpecParseError::UnexpectedEof)
                },
            }
        } else if t.kind == TokenKind::OPEN_BRACK {
            match expression(toks, p + 1) {
                Err(err) => Err(err),
                Ok((index, p2)) => match consume(toks, p2, TokenKind::CLOSE_BRACK, "Expect ']' after array indexing"@) {
                    Err(err) => Err(err),
                    Ok(p3) => if fwd(p, p3, toks.len() as int) {
                        call_rest(toks, SpecExpr::Index { object: Box::new(e), index: Box::new(index) }, p3)
                    } else {
                        Err(SpecParseError::UnexpectedEof)
                    },
                },
            }
        } else if t.kind == TokenKind::INC || t.kind == TokenKind::DEC {
            call_rest(toks, SpecExpr::PostUnary { operator: t, left: Box::new(e) }, p + 1)
        } else {
            Ok((e, p))
        },
    }
}

/// The arguments of a call after `(`, then `)`, with `acc` read so far;
/// gives the arguments. At most `MAX_ARGUMENTS` are allowed.
pub open spec fn arguments(toks: Seq<Token>, q: int, acc: Seq<SpecExpr>) -> Read<Seq<SpecExpr>>
    decreases toks.len() - q, 40nat,
{
    if acc.len() == 0 && at(toks, q, TokenKind::CLOSE_PAREN) {
        Ok((acc, q + 1))
    } else {
        match expression(toks, q) {
            Err(e) => Err(e),
            Ok((a, q1)) => if fwd(q, q1, toks.len() as int) {
                arguments_rest(toks, q1, acc.push(a))
            } else {
                Err(SpecParseError::UnexpectedEof)
            },
        }
    }
}

/// After an argument: a comma and the next argument, or `)`.
pub open spec fn arguments_rest(toks: Seq<Token>, q: int, acc: Seq<SpecExpr>) -> Read<Seq<SpecExpr>>
    decreases toks.len() - q, 0nat,
{
    if at(toks, q, TokenKind::COMMA) {
        if acc.len() >= MAX_ARGUMENTS {
            Err(too_many(toks, q + 1, "Can't have more than 255 arguments"@))
        } else {
            match expression(toks, q + 1) {
                Err(e) => Err(e),
                Ok((a, q1)) => if fwd(q, q1, toks.len() as int) {
                    arguments_rest(toks, q1, acc.push(a))
                } else {
                    Err(SpecParseError::UnexpectedEof)
                },
            }
        }
    } else {
        match consume(toks, q, TokenKind::CLOSE_PAREN, "Expect ')' after arguments"@) {
            Err(e) => Err(e),
            Ok(q1) => Ok((acc, q1)),
        }
    }
}

/// A literal, a parenthesised expression, a variable, an array or a
/// hashmap.
pub open spec fn primary(toks: Seq<Token>, p: int) -> Read<SpecExpr>
    decreases toks.len() - p, 6nat,
{
    match peek(toks, p) {
        None => Err(SpecParseError::UnexpectedEof),
        Some(t) => match t.kind {
            TokenKind::NUM(_) => Ok((SpecExpr::Literal(t), p + 1)),
            TokenKind::TRUE => Ok((SpecExpr::Literal(t), p + 1)),
            TokenKind::FALSE => Ok((SpecExpr::Literal(t), p + 1)),
            TokenKind::NULL => Ok((SpecExpr::Literal(t), p + 1)),
            TokenKind::STRING(_) => Ok((SpecExpr::Literal(t), p + 1)),
            TokenKind::OPEN_PAREN => match expression(toks, p + 1) {
                Err(e) => Err(e),
                Ok((e, p1)) => match consume(toks, p1, TokenKind::CLOSE_PAREN, "Expect ')' after expression"@) {
                    Err(err) => Err(err),
                    Ok(p2) => Ok((SpecExpr::Group { expr: Box::new(e) }, p2)),
                },
            },
            TokenKind::IDENT(_) => Ok((SpecExpr::Var { name: t, id: p as usize }, p + 1)),
            TokenKind::OPEN_BRACK => match elements(toks, p + 1) {
                Err(e) => Err(e),
                Ok((es, p1)) => Ok((SpecExpr::Array { elements: es }, p1)),
            },
            TokenKind::OPEN_BRACE => match fields(toks, p + 1) {
                Err(e) => Err(e),
                Ok((fs, p1)) => Ok((SpecExpr::Hashmap { fields: fs }, p1)),
            },
            _ => Err(SpecParseError::UnexpectedToken {
                token: t.kind.spec_text(),
                line: t.span.line,
                col: t.span.column,
            }),
        },
    }
}

/// The elements of an array literal after `[`, then `]`.
pub open spec fn elements(toks: Seq<Token>, q: int) -> Read<Seq<SpecExpr>>
    decreases toks.len() - q, 41nat,
{
    if at(toks, q, TokenKind::CLOSE_BRACK) {
        Ok((Seq::empty(), q + 1))
    } else {
        elements_rest(toks, q, Seq::empty())
    }
}

/// An element, then a comma and more elements, or `]`.
pub open spec fn elements_rest(toks: Seq<Token>, q: int, acc: Seq<SpecExpr>) -> Read<Seq<SpecExpr>>
    decreases toks.len() - q, 40nat,
{
    match expression(toks, q) {
        Err(e) => Err(e),
        Ok((e, q1)) => if !fwd(q, q1, toks.len() as int) {
            Err(SpecParseError::UnexpectedEof)
        } else if at(toks, q1, TokenKind::COMMA) {
            elements_rest(toks, q1 + 1, acc.push(e))
        } else {
            match consume(toks, q1, TokenKind::CLOSE_BRACK, "Expect ']' after array."@) {
                Err(err) => Err(err),
                Ok(q2) => Ok((acc.push(e), q2)),
            }
        },
    }
}

/// The fields of a hashmap literal after `{`, then `}`.
pub open spec fn fields(toks: Seq<Token>, q: int) -> Read<Seq<(String, SpecExpr)>>
    decreases toks.len() - q, 1nat,
{
    if at(toks, q, TokenKind::CLOSE_BRACE) {
        Ok((Seq::empty(), q + 1))
    } else {
        fields_rest(toks, q, Seq::empty())
    }
}

/// The `}` that closes a hashmap literal.
pub open spec fn close_fields(toks: Seq<Token>, q: int, acc: Seq<(String, SpecExpr)>) -> Read<Seq<(String, SpecExpr)>> {
    match consume(toks, q, TokenKind::CLOSE_BRACE, "Expect '}' after hashmap body"@) {
        Err(e) => Err(e),
        Ok(q1) => Ok((acc, q1)),
    }
}

/// A field `key: value`, then a comma and more fields (a trailing comma is
/// allowed), or `}`.
pub open spec fn fields_rest(toks: Seq<Token>, q: int, acc: Seq<(String, SpecExpr)>) -> Read<Seq<(String, SpecExpr)>>
    decreases toks.len() - q, 0nat,
{
    match consume_ident(toks, q, "Expect key name in hashmap"@) {
        Err(e) => Err(e),
        Ok((key_tok, q1)) => match consume(toks, q1, TokenKind::COLON, "Expect ':' after hashmap key"@) {
            Err(e) => Err(e),
            Ok(q2) => match expression(toks, q2) {
                Err(e) => Err(e),
                Ok((value, q3)) => match key_tok.kind {
                    TokenKind::IDENT(key) => if !fwd(q, q3, toks.len() as int) {
                        Err(SpecParseError::UnexpectedEof)
                    } else if at(toks, q3, TokenKind::COMMA) {
                        if at(toks, q3 + 1, TokenKind::CLOSE_BRACE) {
                            close_fields(toks, q3 + 1, acc.push((key, value)))
                        } else {
                            fields_rest(toks, q3 + 1, acc.push((key, value)))
                        }
                    } else {
                        close_fields(toks, q3, acc.push((key, value)))
                    },
                    _ => Err(SpecParseError::UnexpectedEof),
                },
            },
        },
    }
}

// ---------------------------------------------------------------------------
// Statements
// ---------------------------------------------------------------------------

/// A whole program from `p`: declarations until the input ends.
pub open spec fn program(toks: Seq<Token>, p: int, acc: Seq<SpecStmt>) -> Result<Seq<SpecStmt>, SpecParseError>
    decreases toks.len() - p,
{
    if peek(toks, p) is None {
        Ok(acc)
    } else {
        match declaration(toks, p) {
            Err(e) => Err(e),
            Ok((s, p1)) => if fwd(p, p1, toks.len() as int) {
                program(toks, p1, acc.push(s))
            } else {
                Err(SpecParseError::UnexpectedEof)
            },
        }
    }
}

/// A variable, function or class declaration, or a statement.
pub open spec fn declaration(toks: Seq<Token>, p: int) -> Read<SpecStmt>
    decreases toks.len() - p, 30nat,
{
    match peek(toks, p) {
        None => Err(SpecParseError::UnexpectedEof),
        Some(t) => match t.kind {
            TokenKind::VAR => var_declaration(toks, p),
            TokenKind::FUNC => func_declaration(toks, p),
            TokenKind::CLASS => class_declaration(toks, p),
            _ => statement(toks, p),
        },
    }
}

/// `var name;` or `var name = value;` (the `var` token is at `p`).
pub open spec fn var_declaration(toks: Seq<Token>, p: int) -> Read<SpecStmt>
    decreases toks.len() - p, 29nat,
{
    match name_after(toks, p + 1, "var"@) {
        Err(e) => Err(e),
        Ok((name, q)) => if at(toks, q, TokenKind::EQUAL) {
            match expression(toks, q + 1) {
                Err(e) => Err(e),
                Ok((init, q1)) => match consume(toks, q1, TokenKind::SEMI, "Expect ';' after variable declaration"@) {
                    Err(e) => Err(e),
                    Ok(q2) => Ok((SpecStmt::Var { name, initializer: Some(init) }, q2)),
                },
            }
        } else {
            match consume(toks, q, TokenKind::SEMI, "Expect ';' after variable declaration"@) {
                Err(e) => Err(e),
                Ok(q2) => Ok((SpecStmt::Var { name, initializer: None }, q2)),
            }
        },
    }
}

/// `func name(params) { ... }`. The token at `p` is skipped whatever it is
/// (a class body reads its methods this way).
pub open spec fn func_declaration(toks: Seq<Token>, p: int) -> Read<SpecStmt>
    decreases toks.len() - p, 29nat,
{
    match name_after(toks, p + 1, "func"@) {
        Err(e) => Err(e),
        Ok((name, q)) => match consume(toks, q, TokenKind::OPEN_PAREN, "Expect '(' after function name"@) {
            Err(e) => Err(e),
            Ok(q1) => match parameters(toks, q1) {
                Err(e) => Err(e),
                Ok((params, q2)) => match consume(toks, q2, TokenKind::CLOSE_PAREN, "Expect ')' after parameters"@) {
                    Err(e) => Err(e),
                    Ok(q3) => if !fwd(p, q3, toks.len() as int) {
                        Err(SpecParseError::UnexpectedEof)
                    } else {
                        match block(toks, q3) {
                            Err(e) => Err(e),
                            Ok((body, q4)) => Ok((SpecStmt::Func { name, parameters: params, body: Box::new(body) }, q4)),
                        }
                    },
                },
            },
        },
    }
}

/// The parameter names of a function, up to (not including) `)`.
pub open spec fn parameters(toks: Seq<Token>, q: int) -> Read<Seq<Token>> {
    if at(toks, q, TokenKind::CLOSE_PAREN) {
        Ok((Seq::empty(), q))
    } else {
        match consume_ident(toks, q, "Expect parameter name"@) {
            Err(e) => Err(e),
            Ok((t, q1)) => parameters_rest(toks, q1, seq![t]),
        }
    }
}

/// More parameters, each after a comma. At most `MAX_ARGUMENTS`.
pub open spec fn parameters_rest(toks: Seq<Token>, q: int, acc: Seq<Token>) -> Read<Seq<Token>>
    decreases toks.len() - q,
{
    if q < toks.len() && at(toks, q, TokenKind::COMMA) {
        if acc.len() >= MAX_ARGUMENTS {
            Err(too_many(toks, q + 1, "Can't have more than 255 parameters"@))
        } else {
            match consume_ident(toks, q + 1, "Expect parameter name"@) {
                Err(e) => Err(e),
                Ok((t, q1)) => parameters_rest(toks, q1, acc.push(t)),
            }
        }
    } else {
        Ok((acc, q))
    }
}

/// `class Name { methods }` or `class Name inherit Base { methods }`.
/// The superclass is kept as a variable expression.
pub open spec fn class_declaration(toks: Seq<Token>, p: int) -> Read<SpecStmt>
    decreases toks.len() - p, 29nat,
{
    match name_after(toks, p + 1, "class"@) {
        Err(e) => Err(e),
        Ok((name, q)) => match superclass(toks, q) {
            Err(e) => Err(e),
            Ok((sup, q1)) => match consume(toks, q1, TokenKind::OPEN_BRACE, "Expect '{' before class body"@) {
                Err(e) => Err(e),
                Ok(q2) => match methods(toks, q2, Seq::empty()) {
                    Err(e) => Err(e),
                    Ok((ms, q3)) => match consume(toks, q3, TokenKind::CLOSE_BRACE, "Expect '}' after class body"@) {
                        Err(e) => Err(e),
                        Ok(q4) => Ok((SpecStmt::Class { name, methods: ms, superclass: sup }, q4)),
                    },
                },
            },
        },
    }
}

/// An optional `inherit Base` clause.
pub open spec fn superclass(toks: Seq<Token>, q: int) -> Read<Option<SpecExpr>> {
    match peek(toks, q) {
        None => Err(SpecParseError::UnexpectedEof),
        Some(t) => if t.kind == TokenKind::INHERIT {
            match consume_ident(toks, q + 1, "Expect superclass name after 'inherit' keyword"@) {
                Err(e) => Err(e),
                Ok((base, q1)) => Ok((Some(SpecExpr::Var { name: base, id: (q + 1) as usize }), q1)),
            }
        } else {
            Ok((None, q))
        },
    }
}

/// The methods of a class body, up to `}` or the end of input.
pub open spec fn methods(toks: Seq<Token>, q: int, acc: Seq<SpecStmt>) -> Read<Seq<SpecStmt>>
    decreases toks.len() - q, 40nat,
{
    if peek(toks, q) is None || at(toks, q, TokenKind::CLOSE_BRACE) {
        Ok((acc, q))
    } else {
        match func_declaration(toks, q) {
            Err(e) => Err(e),
            Ok((m, q1)) => if fwd(q, q1, toks.len() as int) {
                methods(toks, q1, acc.push(m))
            } else {
                Err(SpecParseError::UnexpectedEof)
            },
        }
    }
}

/// A statement: a block, `if`, one of the three loops, `return`, `break`,
/// `continue`, or an expression followed by `;`.
pub open spec fn statement(toks: Seq<Token>, p: int) -> Read<SpecStmt>
    decreases toks.len() - p, 28nat,
{
    match peek(toks, p) {
        None => Err(SpecParseError::UnexpectedEof),
        Some(t) => match t.kind {
            TokenKind::OPEN_BRACE => block(toks, p),
            TokenKind::IF => if_statement(toks, p),
            TokenKind::LOOP => match peek(toks, p + 1) {
                Some(t2) => match t2.kind {
                    TokenKind::IF => loop_if_statement(toks, p),
                    TokenKind::IDENT(_) => if at(toks, p + 2, TokenKind::IN) {
                        loop_in_statement(toks, p)
                    } else {
                        loop_statement(toks, p)
                    },
                    _ => loop_statement(toks, p),
                },
                None => loop_statement(toks, p),
            },
            TokenKind::RETURN => return_statement(toks, p),
            TokenKind::BREAK => match consume(toks, p + 1, TokenKind::SEMI, "Expect ';' after break statement"@) {
                Err(e) => Err(e),
                Ok(q) => Ok((SpecStmt::Break, q)),
            },
            TokenKind::CONTINUE => match consume(toks, p + 1, TokenKind::SEMI, "Expect ';' after continue statement"@) {
                Err(e) => Err(e),
                Ok(q) => Ok((SpecStmt::Continue, q)),
            },
            _ => expression_statement(toks, p),
        },
    }
}

/// An expression followed by `;`.
pub open spec fn expression_statement(toks: Seq<Token>, p: int) -> Read<SpecStmt>
    decreases toks.len() - p, 27nat,
{
    match expression(toks, p) {
        Err(e) => Err(e),
        Ok((e, q)) => match consume(toks, q, TokenKind::SEMI, "Expect ';' after expression"@) {
            Err(err) => Err(err),
            Ok(q1) => Ok((SpecStmt::Expr(e), q1)),
        },
    }
}

/// `if cond { ... }` with an optional `else { ... }` or `else if ...`
/// (the nested `if` statement is then the else body).
pub open spec fn if_statement(toks: Seq<Token>, p: int) -> Read<SpecStmt>
    decreases toks.len() - p, 27nat,
{
    match expression(toks, p + 1) {
        Err(e) => Err(e),
        Ok((cond, q)) => if !fwd(p, q, toks.len() as int) { Err(SpecParseError::UnexpectedEof) } else { match block(toks, q) {
            Err(e) => Err(e),
            Ok((body, q1)) => if !fwd(p, q1, toks.len() as int) {
                Err(SpecParseError::UnexpectedEof)
            } else if at(toks, q1, TokenKind::ELSE) {
                match (if at(toks, q1 + 1, TokenKind::IF) { if_statement(toks, q1 + 1) } else { block(toks, q1 + 1) }) {
                    Err(e) => Err(e),
                    Ok((other, q2)) => Ok((SpecStmt::If {
                        condition: cond,
                        if_body: Box::new(body),
                        else_body: Some(Box::new(other)),
                    }, q2)),
                }
            } else {
                Ok((SpecStmt::If { condition: cond, if_body: Box::new(body), else_body: None }, q1))
            },
        } },
    }
}

/// `loop if cond { ... }`.
pub open spec fn loop_if_statement(toks: Seq<Token>, p: int) -> Read<SpecStmt>
    decreases toks.len() - p, 27nat,
{
    match consume(toks, p, TokenKind::LOOP, "Expect 'loop'"@) {
        Err(e) => Err(e),
        Ok(q) => match consume(toks, q, TokenKind::IF, "Expect 'if' after 'loop'"@) {
            Err(e) => Err(e),
            Ok(q1) => match expression(toks, q1) {
                Err(e) => Err(e),
                Ok((cond, q2)) => if !fwd(p, q2, toks.len() as int) {
                    Err(SpecParseError::UnexpectedEof)
                } else {
                    match block(toks, q2) {
                        Err(e) => Err(e),
                        Ok((body, q3)) => Ok((SpecStmt::LoopIf { condition: cond, body: Box::new(body) }, q3)),
                    }
                },
            },
        },
    }
}

/// `loop count { ... }`.
pub open spec fn loop_statement(toks: Seq<Token>, p: int) -> Read<SpecStmt>
    decreases toks.len() - p, 27nat,
{
    match expression(toks, p + 1) {
        Err(e) => Err(e),
        Ok((count, q)) => if !fwd(p, q, toks.len() as int) {
            Err(SpecParseError::UnexpectedEof)
        } else {
            match block(toks, q) {
                Err(e) => Err(e),
                Ok((body, q1)) => Ok((SpecStmt::Loop { count, body: Box::new(body) }, q1)),
            }
        },
    }
}

/// `loop name in object { ... }`.
pub open spec fn loop_in_statement(toks: Seq<Token>, p: int) -> Read<SpecStmt>
    decreases toks.len() - p, 27nat,
{
    match name_after(toks, p + 1, "loop"@) {
        Err(e) => Err(e),
        Ok((name, q)) => match consume(toks, q, TokenKind::IN, "Expect 'in' after identifier"@) {
            Err(e) => Err(e),
            Ok(q1) => match expression(toks, q1) {
                Err(e) => Err(e),
                Ok((object, q2)) => if !fwd(p, q2, toks.len() as int) {
                    Err(SpecParseError::UnexpectedEof)
                } else {
                    match block(toks, q2) {
                        Err(e) => Err(e),
                        Ok((body, q3)) => Ok((SpecStmt::LoopIn { name, object, body: Box::new(body) }, q3)),
                    }
                },
            },
        },
    }
}

/// `return value;`.
pub open spec fn return_statement(toks: Seq<Token>, p: int) -> Read<SpecStmt>
    decreases toks.len() - p, 27nat,
{
    match expression(toks, p + 1) {
        Err(e) => Err(e),
        Ok((value, q)) => match consume(toks, q, TokenKind::SEMI, "Expect ';' after return statement"@) {
            Err(e) => Err(e),
            Ok(q1) => Ok((SpecStmt::Return(value), q1)),
        },
    }
}

/// `{ declarations }`.
pub open spec fn block(toks: Seq<Token>, p: int) -> Read<SpecStmt>
    decreases toks.len() - p, 27nat,
{
    match consume(toks, p, TokenKind::OPEN_BRACE, "Expect '{' before block"@) {
        Err(e) => Err(e),
        Ok(q) => block_rest(toks, q, Seq::empty()),
    }
}

/// The declarations of a block, then `}`.
pub open spec fn block_rest(toks: Seq<Token>, q: int, acc: Seq<SpecStmt>) -> Read<SpecStmt>
    decreases toks.len() - q, 40nat,
{
    if peek(toks, q) is None || at(toks, q, TokenKind::CLOSE_BRACE) {
        match consume(toks, q, TokenKind::CLOSE_BRACE, "Expect '}' after block"@) {
            Err(e) => Err(e),
            Ok(q1) => Ok((SpecStmt::Block(acc), q1)),
        }
    } else {
        match declaration(toks, q) {
            Err(e) => Err(e),
            Ok((s, q1)) => if fwd(q, q1, toks.len() as int) {
                block_rest(toks, q1, acc.push(s))
            } else {
                Err(SpecParseError::UnexpectedEof)
            },
        }
    }
}


// ---------------------------------------------------------------------------
// Laws
// ---------------------------------------------------------------------------

/// A function declaration with a block as its body.
pub open spec fn is_function_with_block(s: SpecStmt) -> bool {
    s matches SpecStmt::Func { body, .. } && *body is Block
}

/// What the rest of a block reads is a block.
proof fn lemma_block_rest_is_block(toks: Seq<Token>, q: int, acc: Seq<SpecStmt>)
    ensures
        block_rest(toks, q, acc) matches Ok((b, _)) ==> b is Block,
    decreases toks.len() - q,
{
    if !(peek(toks, q) is None || at(toks, q, TokenKind::CLOSE_BRACE)) {
        if let Ok((s, q1)) = declaration(toks, q) {
            if fwd(q, q1, toks.len() as int) {
                lemma_block_rest_is_block(toks, q1, acc.push(s));
            }
        }
    }
}

/// Every function the parser reads, a method included, has a block as its
/// body.
pub proof fn law_function_bodies_are_blocks(toks: Seq<Token>, p: int)
    ensures
        func_declaration(toks, p) matches Ok((f, _)) ==> is_function_with_block(f),
{
    if let Ok((name, q)) = name_after(toks, p + 1, "func"@) {
        if let Ok(q1) = consume(toks, q, TokenKind::OPEN_PAREN, "Expect '(' after function name"@) {
            if let Ok((params, q2)) = parameters(toks, q1) {
                if let Ok(q3) = consume(toks, q2, TokenKind::CLOSE_PAREN, "Expect ')' after parameters"@) {
                    if let Ok(q4) = consume(toks, q3, TokenKind::OPEN_BRACE, "Expect '{' before block"@) {
                        lemma_block_rest_is_block(toks, q4, Seq::empty());
                    }
                }
            }
        }
    }
}

/// The methods read for a class body are functions with block bodies.
proof fn lemma_methods_are_functions(toks: Seq<Token>, q: int, acc: Seq<SpecStmt>)
    requires
        forall|i: int| 0 <= i < acc.len() ==> is_function_with_block(#[trigger] acc[i]),
    ensures
        methods(toks, q, acc) matches Ok((ms, _)) ==> forall|i: int| 0 <= i < ms.len() ==> is_function_with_block(#[trigger] ms[i]),
    decreases toks.len() - q,
{
    if !(peek(toks, q) is None || at(toks, q, TokenKind::CLOSE_BRACE)) {
        law_function_bodies_are_blocks(toks, q);
        if let Ok((m, q1)) = func_declaration(toks, q) {
            if fwd(q, q1, toks.len() as int) {
                let next = acc.push(m);
                assert forall|i: int| 0 <= i < next.len() implies is_function_with_block(#[trigger] next[i]) by {
                    if i < acc.len() {
                        assert(next[i] == acc[i]);
                    }
                }
                lemma_methods_are_functions(toks, q1, next);
            }
        }
    }
}

/// Every member of a class the parser reads is a function declaration with
/// a block as its body.
pub proof fn law_class_members_are_functions(toks: Seq<Token>, p: int)
    ensures
        class_declaration(toks, p) matches Ok((c, _)) ==> (c matches SpecStmt::Class { methods, .. }
            && forall|i: int| 0 <= i < methods.len() ==> is_function_with_block(#[trigger] methods[i])),
{
    if let Ok((name, q)) = name_after(toks, p + 1, "class"@) {
        if let Ok((sup, q1)) = superclass(toks, q) {
            if let Ok(q2) = consume(toks, q1, TokenKind::OPEN_BRACE, "Expect '{' before class body"@) {
                lemma_methods_are_functions(toks, q2, Seq::empty());
            }
        }
    }
}

/// A literal number or a variable: what `primary` makes of the token at
/// `p` when it is a number or an identifier.
pub open spec fn atom(toks: Seq<Token>, p: int) -> SpecExpr {
    match toks[p].kind {
        TokenKind::IDENT(_) => SpecExpr::Var { name: toks[p], id: p as usize },
        _ => SpecExpr::Literal(toks[p]),
    }
}

/// A token kind that ends an operand: neither a suffix of a call
/// expression nor the end of input.
pub open spec fn ends_operand(k: TokenKind) -> bool {
    k != TokenKind::OPEN_PAREN && k != TokenKind::DOT && k != TokenKind::OPEN_BRACK
        && k != TokenKind::INC && k != TokenKind::DEC && k != TokenKind::EOF
}

/// A token kind that ends an expression of every binary level.
pub open spec fn ends_levels(k: TokenKind) -> bool {
    k == TokenKind::SEMI || k == TokenKind::EQUAL || k == TokenKind::PLUS_EQ || k == TokenKind::MINUS_EQ
        || k == TokenKind::STAR_EQ || k == TokenKind::SLASH_EQ || k == TokenKind::MOD_EQ
}

/// A number or an identifier followed by a token that ends an operand is
/// read by `unary` as itself.
proof fn lemma_unary_atom(toks: Seq<Token>, p: int)
    requires
        0 <= p,
        p + 1 < toks.len(),
        toks[p].kind is NUM || toks[p].kind is IDENT,
        ends_operand(toks[p + 1].kind),
    ensures
        unary(toks, p) == Ok::<(SpecExpr, int), SpecParseError>((atom(toks, p), p + 1)),
{
    assert(primary(toks, p) == Ok::<(SpecExpr, int), SpecParseError>((atom(toks, p), p + 1)));
    assert(call_rest(toks, atom(toks, p), p + 1) == Ok::<(SpecExpr, int), SpecParseError>((atom(toks, p), p + 1)));
    assert(call(toks, p) == Ok::<(SpecExpr, int), SpecParseError>((atom(toks, p), p + 1)));
}

/// A token that ends every level stops the rest of any level.
proof fn lemma_rest_stops(toks: Seq<Token>, e: SpecExpr, q: int, n: nat)
    requires
        0 <= q < toks.len(),
        ends_levels(toks[q].kind),
    ensures
        level_rest(toks, e, q, n) == Ok::<(SpecExpr, int), SpecParseError>((e, q)),
{
    assert(!binary_op(n, toks[q].kind));
}

/// An atom followed by a token that ends every level is read at every
/// level as itself.
proof fn lemma_level_atom(toks: Seq<Token>, p: int, n: nat)
    requires
        0 <= p,
        p + 1 < toks.len(),
        toks[p].kind is NUM || toks[p].kind is IDENT,
        ends_levels(toks[p + 1].kind),
    ensures
        level(toks, p, n) == Ok::<(SpecExpr, int), SpecParseError>((atom(toks, p), p + 1)),
    decreases n,
{
    if n == 0 {
        lemma_unary_atom(toks, p);
    } else {
        lemma_level_atom(toks, p, (n - 1) as nat);
    }
    lemma_rest_stops(toks, atom(toks, p), p + 1, n);
}

/// An expression that ends at a token ending every level is read as itself
/// at the looser levels too.
proof fn lemma_level_up(toks: Seq<Token>, p: int, n: nat, e: SpecExpr, q: int)
    requires
        1 <= n,
        0 <= p < q < toks.len(),
        level(toks, p, (n - 1) as nat) == Ok::<(SpecExpr, int), SpecParseError>((e, q)),
        ends_levels(toks[q].kind),
    ensures
        level(toks, p, n) == Ok::<(SpecExpr, int), SpecParseError>((e, q)),
{
    lemma_rest_stops(toks, e, q, n);
}

/// An assignment whose target is an expression ending at a token that is
/// neither `=` nor a compound assignment operator is that expression.
proof fn lemma_assignment_plain(toks: Seq<Token>, p: int, e: SpecExpr, q: int)
    requires
        0 <= p < q < toks.len(),
        level(toks, p, 4) == Ok::<(SpecExpr, int), SpecParseError>((e, q)),
        toks[q].kind == TokenKind::SEMI,
    ensures
        expression(toks, p) == Ok::<(SpecExpr, int), SpecParseError>((e, q)),
{
}

/// Multiplicative operators bind tighter than additive ones: for numbers
/// `a`, `b`, `c`, the tokens `a + b / c ;` (with `+` or `-`, and `*`, `/`
/// or `%`) are read as `a + (b / c)`.
pub proof fn law_multiplicative_binds_tighter(toks: Seq<Token>, p: int)
    requires
        0 <= p,
        p + 5 < toks.len(),
        toks[p].kind is NUM,
        toks[p + 2].kind is NUM,
        toks[p + 4].kind is NUM,
        toks[p + 1].kind == TokenKind::PLUS || toks[p + 1].kind == TokenKind::MINUS,
        toks[p + 3].kind == TokenKind::STAR || toks[p + 3].kind == TokenKind::SLASH || toks[p + 3].kind == TokenKind::MOD,
        toks[p + 5].kind == TokenKind::SEMI,
    ensures
        expression(toks, p) == Ok::<(SpecExpr, int), SpecParseError>((SpecExpr::Binary {
            left: Box::new(SpecExpr::Literal(toks[p])),
            operator: toks[p + 1],
            right: Box::new(SpecExpr::Binary {
                left: Box::new(SpecExpr::Literal(toks[p + 2])),
                operator: toks[p + 3],
                right: Box::new(SpecExpr::Literal(toks[p + 4])),
            }),
        }, p + 5)),
{
    let a = SpecExpr::Literal(toks[p]);
    let b = SpecExpr::Literal(toks[p + 2]);
    let c = SpecExpr::Literal(toks[p + 4]);
    let bc = SpecExpr::Binary { left: Box::new(b), operator: toks[p + 3], right: Box::new(c) };
    let abc = SpecExpr::Binary { left: Box::new(a), operator: toks[p + 1], right: Box::new(bc) };
    // level 0 from `b`: `b / c`
    lemma_unary_atom(toks, p + 2);
    lemma_unary_atom(toks, p + 4);
    assert(operand(toks, p + 4, 0) == Ok::<(SpecExpr, int), SpecParseError>((c, p + 5)));
    lemma_rest_stops(toks, bc, p + 5, 0);
    assert(binary_op(0, toks[p + 3].kind));
    assert(level_rest(toks, b, p + 3, 0) == Ok::<(SpecExpr, int), SpecParseError>((bc, p + 5)));
    assert(level(toks, p + 2, 0) == Ok::<(SpecExpr, int), SpecParseError>((bc, p + 5)));
    // level 0 from `a`: just `a`
    lemma_unary_atom(toks, p);
    assert(!binary_op(0, toks[p + 1].kind));
    assert(level_rest(toks, a, p + 1, 0) == Ok::<(SpecExpr, int), SpecParseError>((a, p + 1)));
    assert(level(toks, p, 0) == Ok::<(SpecExpr, int), SpecParseError>((a, p + 1)));
    // level 1: `a + (b / c)`
    assert(binary_op(1, toks[p + 1].kind));
    assert(operand(toks, p + 2, 1) == Ok::<(SpecExpr, int), SpecParseError>((bc, p + 5)));
    lemma_rest_stops(toks, abc, p + 5, 1);
    assert(level_rest(toks, a, p + 1, 1) == Ok::<(SpecExpr, int), SpecParseError>((abc, p + 5)));
    assert(level(toks, p, 1) == Ok::<(SpecExpr, int), SpecParseError>((abc, p + 5)));
    lemma_level_up(toks, p, 2, abc, p + 5);
    lemma_level_up(toks, p, 3, abc, p + 5);
    lemma_level_up(toks, p, 4, abc, p + 5);
    lemma_assignment_plain(toks, p, abc, p + 5);
}

/// Every compound assignment operator on a variable is read: the tokens
/// `name op value ;`, for `op` one of `+=`, `-=`, `*=`, `/=`, `%=` and a
/// number `value`, are read as the compound assignment of `value` to `name`
/// with `op`.
pub proof fn law_compound_assignments(toks: Seq<Token>, p: int, name: String)
    requires
        0 <= p,
        p + 3 < toks.len(),
        toks[p].kind == TokenKind::IDENT(name),
        toks[p + 1].kind == TokenKind::PLUS_EQ || toks[p + 1].kind == TokenKind::MINUS_EQ
            || toks[p + 1].kind == TokenKind::STAR_EQ || toks[p + 1].kind == TokenKind::SLASH_EQ
            || toks[p + 1].kind == TokenKind::MOD_EQ,
        toks[p + 2].kind is NUM,
        toks[p + 3].kind == TokenKind::SEMI,
    ensures
        expression(toks, p) == Ok::<(SpecExpr, int), SpecParseError>((SpecExpr::CompoundAssign {
            name,
            value: Box::new(SpecExpr::Literal(toks[p + 2])),
            op: toks[p + 1],
            id: p as usize,
        }, p + 3)),
{
    lemma_level_atom(toks, p, 4);
    lemma_level_atom(toks, p + 2, 4);
    lemma_assignment_plain(toks, p + 2, SpecExpr::Literal(toks[p + 2]), p + 3);
    assert(assignment(toks, p + 2) == Ok::<(SpecExpr, int), SpecParseError>((SpecExpr::Literal(toks[p + 2]), p + 3)));
    assert(!at(toks, p + 1, TokenKind::EQUAL));
    assert(compound_at(toks, p + 1));
}

} // verus!
