//! The parser: tokens to statements, proved to follow `grammar`.
use vstd::prelude::*;
use std::rc::Rc;
use crate::errors::parse_error::ParseError;
use crate::lexer::token::{lemma_agrees_plain, Token, TokenKind};
use crate::parser::expression::{Expr, SpecExpr, exprs_view, fields_view, lemma_exprs_view_push, lemma_fields_view_push};
use crate::parser::grammar;
use crate::parser::grammar::{Read, MAX_ARGUMENTS, arguments, arguments_rest, assignment, at, binary_op, block, block_rest, call, call_rest, class_declaration, compound_at, consume, consume_ident, declaration, elements, elements_rest, expression, expression_statement, fields, fields_rest, func_declaration, if_statement, level, level_rest, loop_if_statement, loop_in_statement, loop_statement, methods, name_after, operand, parameters, parameters_rest, peek, primary, program, return_statement, statement, too_many, unary, var_declaration};
use crate::parser::statement::{Stmt, boxed_stmts_view, lemma_boxed_stmts_view_push, lemma_stmts_view_push, stmts_view};
use crate::text::owned;

verus! {

/// The state of a parser, as a mathematical value.
pub struct ParserState {
    pub tokens: Seq<Token>,
    pub current: int,
}

impl ParserState {
    /// The current position lies within the tokens.
    pub open spec fn wf(self) -> bool {
        0 <= self.current <= self.tokens.len()
    }
}

/// `r` is what reading `s` promises, from state `before` to `after`: the
/// expression and the position on success, the same error on failure.
pub open spec fn read_expr(r: Result<Expr, ParseError>, s: Read<SpecExpr>, before: ParserState, after: ParserState) -> bool {
    &&& after.tokens == before.tokens
    &&& after.wf()
    &&& match s {
        Ok((e, q)) => r matches Ok(x) && x@ == e && after.current == q && before.current < q,
        Err(err) => r matches Err(x) && x@ == err,
    }
}

/// As `read_expr`, for a statement.
pub open spec fn read_stmt(r: Result<Stmt, ParseError>, s: Read<crate::parser::statement::SpecStmt>, before: ParserState, after: ParserState) -> bool {
    &&& after.tokens == before.tokens
    &&& after.wf()
    &&& match s {
        Ok((st, q)) => r matches Ok(x) && x@ == st && after.current == q && before.current < q,
        Err(err) => r matches Err(x) && x@ == err,
    }
}

/// Turns tokens into statements.
pub struct Parser {
    tokens: Vec<Token>,
    current: usize,
}

impl View for Parser {
    type V = ParserState;

    closed spec fn view(&self) -> ParserState {
        ParserState { tokens: self.tokens@, current: self.current as int }
    }
}

/// Whether `k` is an operator of binary level `n`.
fn binary_op_kind(n: u8, k: &TokenKind) -> (r: bool)
    requires
        n <= 4,
    ensures
        r == binary_op(n as nat, *k),
{
    match k {
        TokenKind::NOT_EQ | TokenKind::EQ_EQ => n == 4,
        TokenKind::AND | TokenKind::OR => n == 3,
        TokenKind::LESS | TokenKind::GREAT | TokenKind::LESS_EQ | TokenKind::GREAT_EQ | TokenKind::IN => n == 2,
        TokenKind::PLUS | TokenKind::MINUS => n == 1,
        TokenKind::STAR | TokenKind::SLASH | TokenKind::MOD => n == 0,
        _ => false,
    }
}

impl Parser {
    /// A parser at the start of a copy of `tokens`.
    pub fn new(tokens: &[Token]) -> (r: Parser)
        ensures
            r@ == (ParserState { tokens: tokens@, current: 0 }),
    {
        let mut copy: Vec<Token> = Vec::new();
        let mut i: usize = 0;
        while i < tokens.len()
            invariant
                i <= tokens@.len(),
                copy@ == tokens@.take(i as int),
            decreases tokens@.len() - i,
        {
            copy.push(tokens[i].duplicate());
            proof {
                assert(tokens@.take(i as int + 1) =~= tokens@.take(i as int).push(tokens@[i as int]));
            }
            i = i + 1;
        }
        assert(tokens@.take(tokens@.len() as int) =~= tokens@);
        Parser { tokens: copy, current: 0 }
    }

    /// Reads declarations until the input ends (see `program`).
    pub fn parse(&mut self) -> (r: Result<Vec<Stmt>, ParseError>)
        requires
            old(self)@.wf(),
        ensures
            final(self)@.tokens == old(self)@.tokens,
            match program(old(self)@.tokens, old(self)@.current, Seq::empty()) {
                Ok(ss) => r matches Ok(v) && stmts_view(v@) == ss,
                Err(e) => r matches Err(x) && x@ == e,
            },
    {
        let mut statements: Vec<Stmt> = Vec::new();
        let ghost toks = self@.tokens;
        let ghost p0 = self@.current;
        while !self.is_empty()
            invariant
                toks == old(self)@.tokens,
                p0 == old(self)@.current,
                self@.tokens == toks,
                self@.wf(),
                program(toks, p0, Seq::empty()) == program(toks, self@.current, stmts_view(statements@)),
            decreases toks.len() - self@.current,
        {
            let s = self.declaration()?;
            proof {
                lemma_stmts_view_push(statements@, s);
            }
            statements.push(s);
        }
        Ok(statements)
    }

    // -----------------------------------------------------------------------
    // Declarations
    // -----------------------------------------------------------------------

    fn declaration(&mut self) -> (r: Result<Stmt, ParseError>)
        requires
            old(self)@.wf(),
        ensures
            read_stmt(r, declaration(old(self)@.tokens, old(self)@.current), old(self)@, final(self)@),
        decreases old(self).tokens@.len() - old(self).current, 30nat,
    {
        let (is_var, is_func, is_class) = match self.peek() {
            None => return Err(ParseError::UnexpectedEof),
            Some(t) => (
                matches!(t.kind, TokenKind::VAR),
                matches!(t.kind, TokenKind::FUNC),
                matches!(t.kind, TokenKind::CLASS),
            ),
        };
        if is_var {
            self.var_declaration()
        } else if is_func {
            self.func_declaration()
        } else if is_class {
            self.class_declaration()
        } else {
            self.statement()
        }
    }

    /// The name after a keyword (see `name_after`).
    fn name_after(&mut self, keyword: &'static str) -> (r: Result<String, ParseError>)
        requires
            old(self)@.wf(),
        ensures
            final(self)@.tokens == old(self)@.tokens,
            final(self)@.wf(),
            match name_after(old(self)@.tokens, old(self)@.current, keyword@) {
                Ok((name, q)) => r == Ok::<String, ParseError>(name) && final(self)@.current == q,
                Err(e) => r matches Err(x) && x@ == e,
            },
    {
        let name = match self.peek() {
            Some(tok) => match &tok.kind {
                TokenKind::IDENT(v) => v.clone(),
                _ => {
                    return Err(ParseError::ExpectedName { keyword, line: tok.span.line, col: tok.span.column });
                },
            },
            None => return Err(ParseError::UnexpectedEof),
        };
        self.advance();
        Ok(name)
    }

    fn var_declaration(&mut self) -> (r: Result<Stmt, ParseError>)
        requires
            old(self)@.wf(),
            peek(old(self)@.tokens, old(self)@.current) is Some,
        ensures
            read_stmt(r, var_declaration(old(self)@.tokens, old(self)@.current), old(self)@, final(self)@),
        decreases old(self).tokens@.len() - old(self).current, 29nat,
    {
        self.advance();
        let name = self.name_after("var")?;
        let initializer = if self.compare(&TokenKind::EQUAL) {
            self.advance();
            Some(self.expression()?)
        } else {
            None
        };
        self.consume(TokenKind::SEMI, "Expect ';' after variable declaration")?;
        Ok(Stmt::Var { name, initializer })
    }

    #[verifier::loop_isolation(false)]
    fn func_declaration(&mut self) -> (r: Result<Stmt, ParseError>)
        requires
            old(self)@.wf(),
            peek(old(self)@.tokens, old(self)@.current) is Some,
        ensures
            read_stmt(r, func_declaration(old(self)@.tokens, old(self)@.current), old(self)@, final(self)@),
        decreases old(self).tokens@.len() - old(self).current, 29nat,
    {
        let ghost toks = self@.tokens;
        let ghost p0 = self@.current;
        self.advance();
        let name = self.name_after("func")?;
        self.consume(TokenKind::OPEN_PAREN, "Expect '(' after function name")?;
        let ghost q1 = self@.current;
        let mut parameters: Vec<Token> = Vec::new();
        if !self.compare(&TokenKind::CLOSE_PAREN) {
            let first = self.consume_ident("Expect parameter name")?;
            parameters.push(first);
            while self.compare(&TokenKind::COMMA)
                invariant
                    self@.tokens == toks,
                    self@.wf(),
                    grammar::parameters(toks, q1) == parameters_rest(toks, self@.current, parameters@),
                    q1 < self@.current,
                decreases toks.len() - self@.current,
            {
                self.advance();
                if parameters.len() >= MAX_ARGUMENTS {
                    return Err(self.too_many("Can't have more than 255 parameters"));
                }
                let next = self.consume_ident("Expect parameter name")?;
                parameters.push(next);
            }
        }
        self.consume(TokenKind::CLOSE_PAREN, "Expect ')' after parameters")?;
        let body = self.block()?;
        Ok(Stmt::Func { name, parameters, body: Rc::new(body) })
    }

    #[verifier::loop_isolation(false)]
    fn class_declaration(&mut self) -> (r: Result<Stmt, ParseError>)
        requires
            old(self)@.wf(),
            peek(old(self)@.tokens, old(self)@.current) is Some,
        ensures
            read_stmt(r, class_declaration(old(self)@.tokens, old(self)@.current), old(self)@, final(self)@),
        decreases old(self).tokens@.len() - old(self).current, 29nat,
    {
        let ghost toks = self@.tokens;
        let ghost p0 = self@.current;
        self.advance();
        let name = self.name_after("class")?;
        let inherits = match self.peek() {
            Some(tok) => matches!(tok.kind, TokenKind::INHERIT),
            None => return Err(ParseError::UnexpectedEof),
        };
        let superclass = if inherits {
            self.advance();
            let base = self.consume_ident("Expect superclass name after 'inherit' keyword")?;
            Some(Expr::Var { name: base, id: self.current - 1 })
        } else {
            None
        };
        self.consume(TokenKind::OPEN_BRACE, "Expect '{' before class body")?;
        let ghost q2 = self@.current;
        let mut methods: Vec<Stmt> = Vec::new();
        while !self.is_empty() && !self.compare(&TokenKind::CLOSE_BRACE)
            invariant
                self@.tokens == toks,
                toks == old(self)@.tokens,
                p0 == old(self)@.current,
                self@.wf(),
                p0 < q2 <= self@.current,
                grammar::methods(toks, q2, Seq::empty()) == grammar::methods(toks, self@.current, stmts_view(methods@)),
            decreases toks.len() - self@.current,
        {
            let m = self.func_declaration()?;
            proof {
                lemma_stmts_view_push(methods@, m);
            }
            methods.push(m);
        }
        self.consume(TokenKind::CLOSE_BRACE, "Expect '}' after class body")?;
        Ok(Stmt::Class { name, methods, superclass })
    }

    // -----------------------------------------------------------------------
    // Statements
    // -----------------------------------------------------------------------

    fn statement(&mut self) -> (r: Result<Stmt, ParseError>)
        requires
            old(self)@.wf(),
        ensures
            read_stmt(r, statement(old(self)@.tokens, old(self)@.current), old(self)@, final(self)@),
        decreases old(self).tokens@.len() - old(self).current, 28nat,
    {
        let (is_brace, is_if, is_loop, is_return, is_break, is_continue) = match self.peek() {
            None => return Err(ParseError::UnexpectedEof),
            Some(t) => (
                matches!(t.kind, TokenKind::OPEN_BRACE),
                matches!(t.kind, TokenKind::IF),
                matches!(t.kind, TokenKind::LOOP),
                matches!(t.kind, TokenKind::RETURN),
                matches!(t.kind, TokenKind::BREAK),
                matches!(t.kind, TokenKind::CONTINUE),
            ),
        };
        if is_brace {
            self.block()
        } else if is_if {
            self.if_statement()
        } else if is_loop {
            let (next_if, next_ident) = match self.peek_next() {
                Some(t2) => (matches!(t2.kind, TokenKind::IF), matches!(t2.kind, TokenKind::IDENT(_))),
                None => (false, false),
            };
            if next_if {
                self.loop_if_statement()
            } else if next_ident {
                let then_in = match self.peek_nth(2) {
                    Some(t3) => matches!(t3.kind, TokenKind::IN),
                    None => false,
                };
                if then_in {
                    self.loop_in_statement()
                } else {
                    self.loop_statement()
                }
            } else {
                self.loop_statement()
            }
        } else if is_return {
            self.return_statement()
        } else if is_break {
            self.advance();
            self.consume(TokenKind::SEMI, "Expect ';' after break statement")?;
            Ok(Stmt::Break)
        } else if is_continue {
            self.advance();
            self.consume(TokenKind::SEMI, "Expect ';' after continue statement")?;
            Ok(Stmt::Continue)
        } else {
            self.expression_statement()
        }
    }

    fn expression_statement(&mut self) -> (r: Result<Stmt, ParseError>)
        requires
            old(self)@.wf(),
        ensures
            read_stmt(r, expression_statement(old(self)@.tokens, old(self)@.current), old(self)@, final(self)@),
        decreases old(self).tokens@.len() - old(self).current, 27nat,
    {
        let expr = self.expression()?;
        self.consume(TokenKind::SEMI, "Expect ';' after expression")?;
        Ok(Stmt::Expr(expr))
    }

    fn if_statement(&mut self) -> (r: Result<Stmt, ParseError>)
        requires
            old(self)@.wf(),
            peek(old(self)@.tokens, old(self)@.current) is Some,
        ensures
            read_stmt(r, if_statement(old(self)@.tokens, old(self)@.current), old(self)@, final(self)@),
        decreases old(self).tokens@.len() - old(self).current, 27nat,
    {
        self.advance();
        let condition = self.expression()?;
        let if_body = Box::new(self.block()?);
        let else_body = if self.compare(&TokenKind::ELSE) {
            self.advance();
            if self.compare(&TokenKind::IF) {
                Some(Box::new(self.if_statement()?))
            } else {
                Some(Box::new(self.block()?))
            }
        } else {
            None
        };
        Ok(Stmt::If { condition, if_body, else_body })
    }

    fn loop_if_statement(&mut self) -> (r: Result<Stmt, ParseError>)
        requires
            old(self)@.wf(),
        ensures
            read_stmt(r, loop_if_statement(old(self)@.tokens, old(self)@.current), old(self)@, final(self)@),
        decreases old(self).tokens@.len() - old(self).current, 27nat,
    {
        self.consume(TokenKind::LOOP, "Expect 'loop'")?;
        self.consume(TokenKind::IF, "Expect 'if' after 'loop'")?;
        let condition = self.expression()?;
        let body = Box::new(self.block()?);
        Ok(Stmt::LoopIf { condition, body })
    }

    fn loop_statement(&mut self) -> (r: Result<Stmt, ParseError>)
        requires
            old(self)@.wf(),
            peek(old(self)@.tokens, old(self)@.current) is Some,
        ensures
            read_stmt(r, loop_statement(old(self)@.tokens, old(self)@.current), old(self)@, final(self)@),
        decreases old(self).tokens@.len() - old(self).current, 27nat,
    {
        self.advance();
        let count = self.expression()?;
        let body = Box::new(self.block()?);
        Ok(Stmt::Loop { count, body })
    }

    fn loop_in_statement(&mut self) -> (r: Result<Stmt, ParseError>)
        requires
            old(self)@.wf(),
            peek(old(self)@.tokens, old(self)@.current) is Some,
        ensures
            read_stmt(r, loop_in_statement(old(self)@.tokens, old(self)@.current), old(self)@, final(self)@),
        decreases old(self).tokens@.len() - old(self).current, 27nat,
    {
        self.advance();
        let name = self.name_after("loop")?;
        self.consume(TokenKind::IN, "Expect 'in' after identifier")?;
        let object = self.expression()?;
        let body = Box::new(self.block()?);
        Ok(Stmt::LoopIn { name, object, body })
    }

    fn return_statement(&mut self) -> (r: Result<Stmt, ParseError>)
        requires
            old(self)@.wf(),
            peek(old(self)@.tokens, old(self)@.current) is Some,
        ensures
            read_stmt(r, return_statement(old(self)@.tokens, old(self)@.current), old(self)@, final(self)@),
        decreases old(self).tokens@.len() - old(self).current, 27nat,
    {
        self.advance();
        let expr = self.expression()?;
        self.consume(TokenKind::SEMI, "Expect ';' after return statement")?;
        Ok(Stmt::Return(expr))
    }

    fn block(&mut self) -> (r: Result<Stmt, ParseError>)
        requires
            old(self)@.wf(),
        ensures
            read_stmt(r, block(old(self)@.tokens, old(self)@.current), old(self)@, final(self)@),
        decreases old(self).tokens@.len() - old(self).current, 27nat,
    {
        let ghost toks = self@.tokens;
        let ghost p0 = self@.current;
        self.consume(TokenKind::OPEN_BRACE, "Expect '{' before block")?;
        let mut statements: Vec<Box<Stmt>> = Vec::new();
        while !self.is_empty() && !self.compare(&TokenKind::CLOSE_BRACE)
            invariant
                self@.tokens == toks,
                toks == old(self)@.tokens,
                p0 == old(self)@.current,
                self@.wf(),
                p0 < self@.current,
                block(toks, p0) == block_rest(toks, self@.current, boxed_stmts_view(statements@)),
            decreases toks.len() - self@.current,
        {
            let s = Box::new(self.declaration()?);
            proof {
                lemma_boxed_stmts_view_push(statements@, s);
            }
            statements.push(s);
        }
        self.consume(TokenKind::CLOSE_BRACE, "Expect '}' after block")?;
        Ok(Stmt::Block(statements))
    }

    // -----------------------------------------------------------------------
    // Expressions
    // -----------------------------------------------------------------------

    fn expression(&mut self) -> (r: Result<Expr, ParseError>)
        requires
            old(self)@.wf(),
        ensures
            read_expr(r, expression(old(self)@.tokens, old(self)@.current), old(self)@, final(self)@),
        decreases old(self).tokens@.len() - old(self).current, 26nat,
    {
        self.assignment()
    }

    fn is_compound_op(&self) -> (r: bool)
        requires
            self@.wf(),
        ensures
            r == compound_at(self@.tokens, self@.current),
    {
        self.compare(&TokenKind::PLUS_EQ) || self.compare(&TokenKind::MINUS_EQ) || self.compare(&TokenKind::STAR_EQ)
            || self.compare(&TokenKind::SLASH_EQ) || self.compare(&TokenKind::MOD_EQ)
    }

    fn assignment(&mut self) -> (r: Result<Expr, ParseError>)
        requires
            old(self)@.wf(),
        ensures
            read_expr(r, assignment(old(self)@.tokens, old(self)@.current), old(self)@, final(self)@),
        decreases old(self).tokens@.len() - old(self).current, 25nat,
    {
        let expr = self.level(4)?;

        if self.compare(&TokenKind::EQUAL) {
            let equals = self.advance_token()?;
            let value = self.assignment()?;
            match expr {
                Expr::Var { name: tok, id } => {
                    let line = tok.span.line;
                    let col = tok.span.column;
                    match tok.kind {
                        TokenKind::IDENT(name) => {
                            return Ok(Expr::Assign { name, value: Box::new(value), line, col, id });
                        },
                        _ => {},
                    }
                },
                Expr::Get { object, name, .. } => {
                    return Ok(Expr::SetProperty { object, name, value: Box::new(value) });
                },
                Expr::Index { object, index } => {
                    return Ok(Expr::IndexSet {
                        object,
                        index,
                        value: Box::new(value),
                        line: equals.span.line,
                        col: equals.span.column,
                    });
                },
                _ => {},
            }
            return Err(ParseError::InvalidStatement {
                message: owned("Invalid assignment target"),
                line: equals.span.line,
                col: equals.span.column,
            });
        }

        if self.is_compound_op() {
            let op = self.advance_token()?;
            let value = self.assignment()?;
            match expr {
                Expr::Var { name: tok, id } => {
                    let is_ident = matches!(tok.kind, TokenKind::IDENT(_));
                    if is_ident {
                        match tok.kind {
                            TokenKind::IDENT(name) => {
                                return Ok(Expr::CompoundAssign { name, value: Box::new(value), op, id });
                            },
                            _ => {},
                        }
                    }
                    return Ok(Expr::Var { name: tok, id });
                },
                other => {
                    return Ok(other);
                },
            }
        }

        Ok(expr)
    }

    /// An expression of binary level `n` (see `level`): equality (4),
    /// logical (3), comparison (2), additive (1), multiplicative (0).
    fn level(&mut self, n: u8) -> (r: Result<Expr, ParseError>)
        requires
            old(self)@.wf(),
            n <= 4,
        ensures
            read_expr(r, level(old(self)@.tokens, old(self)@.current, n as nat), old(self)@, final(self)@),
        decreases old(self).tokens@.len() - old(self).current, 2 * n + 10,
    {
        let ghost toks = self@.tokens;
        let ghost p0 = self@.current;
        let mut expr = self.operand(n)?;
        loop
            invariant
                self@.tokens == toks,
                toks == old(self)@.tokens,
                p0 == old(self)@.current,
                n <= 4,
                self@.wf(),
                p0 < self@.current,
                level(toks, p0, n as nat) == level_rest(toks, expr@, self@.current, n as nat),
            decreases toks.len() - self@.current,
        {
            let is_op = match self.peek() {
                Some(t) => binary_op_kind(n, &t.kind),
                None => false,
            };
            if !is_op {
                return Ok(expr);
            }
            let op = self.advance_token()?;
            let right = self.operand(n)?;
            expr = Expr::Binary { left: Box::new(expr), operator: op, right: Box::new(right) };
        }
    }

    fn operand(&mut self, n: u8) -> (r: Result<Expr, ParseError>)
        requires
            old(self)@.wf(),
            n <= 4,
        ensures
            read_expr(r, operand(old(self)@.tokens, old(self)@.current, n as nat), old(self)@, final(self)@),
        decreases old(self).tokens@.len() - old(self).current, 2 * n + 9,
    {
        if n == 0 {
            self.unary()
        } else {
            self.level(n - 1)
        }
    }

    fn unary(&mut self) -> (r: Result<Expr, ParseError>)
        requires
            old(self)@.wf(),
        ensures
            read_expr(r, unary(old(self)@.tokens, old(self)@.current), old(self)@, final(self)@),
        decreases old(self).tokens@.len() - old(self).current, 8nat,
    {
        let is_op = match self.peek() {
            Some(t) => matches!(t.kind, TokenKind::MINUS | TokenKind::NOT | TokenKind::INC | TokenKind::DEC),
            None => false,
        };
        if is_op {
            let op = self.advance_token()?;
            let right = self.unary()?;
            return Ok(Expr::Unary { operator: op, right: Box::new(right) });
        }
        self.call()
    }

    fn call(&mut self) -> (r: Result<Expr, ParseError>)
        requires
            old(self)@.wf(),
        ensures
            read_expr(r, call(old(self)@.tokens, old(self)@.current), old(self)@, final(self)@),
        decreases old(self).tokens@.len() - old(self).current, 7nat,
    {
        let ghost toks = self@.tokens;
        let ghost p0 = self@.current;
        let mut expr = self.primary()?;
        loop
            invariant
                self@.tokens == toks,
                toks == old(self)@.tokens,
                p0 == old(self)@.current,
                self@.wf(),
                p0 < self@.current,
                call(toks, p0) == call_rest(toks, expr@, self@.current),
            decreases toks.len() - self@.current,
        {
            let tok = match self.peek() {
                None => return Ok(expr),
                Some(t) => t.duplicate(),
            };
            match tok.kind {
                TokenKind::OPEN_PAREN => {
                    self.advance();
                    expr = self.finish_call(expr, tok.span.line, tok.span.column)?;
                },
                TokenKind::DOT => {
                    self.advance();
                    let name_tok = self.consume_ident("Expect property name after '.'")?;
                    let line = name_tok.span.line;
                    let col = name_tok.span.column;
                    match name_tok.kind {
                        TokenKind::IDENT(name) => {
                            expr = Expr::Get { object: Box::new(expr), name, line, col };
                        },
                        _ => {},
                    }
                },
                TokenKind::OPEN_BRACK => {
                    self.advance();
                    let index = self.expression()?;
                    self.consume(TokenKind::CLOSE_BRACK, "Expect ']' after array indexing")?;
                    expr = Expr::Index { object: Box::new(expr), index: Box::new(index) };
                },
                TokenKind::INC | TokenKind::DEC => {
                    let op = self.advance_token()?;
                    expr = Expr::PostUnary { operator: op, left: Box::new(expr) };
                },
                _ => {
                    return Ok(expr);
                },
            }
        }
    }

    /// The arguments of a call whose `(` was just read, and the `)`.
    fn finish_call(&mut self, callee: Expr, line: usize, col: usize) -> (r: Result<Expr, ParseError>)
        requires
            old(self)@.wf(),
        ensures
            final(self)@.tokens == old(self)@.tokens,
            final(self)@.wf(),
            match arguments(old(self)@.tokens, old(self)@.current, Seq::empty()) {
                Ok((args, q)) => r matches Ok(x)
                    && x@ == (SpecExpr::Call { callee: Box::new(callee@), arguments: args, line, col })
                    && final(self)@.current == q && old(self)@.current < q,
                Err(err) => r matches Err(x) && x@ == err,
            },
        decreases old(self).tokens@.len() - old(self).current, 40nat,
    {
        let ghost toks = self@.tokens;
        let ghost q0 = self@.current;
        let mut arguments: Vec<Box<Expr>> = Vec::new();
        if !self.compare(&TokenKind::CLOSE_PAREN) {
            let first = Box::new(self.expression()?);
            proof {
                lemma_exprs_view_push(arguments@, first);
            }
            arguments.push(first);
            while self.compare(&TokenKind::COMMA)
                invariant
                    self@.tokens == toks,
                    toks == old(self)@.tokens,
                    q0 == old(self)@.current,
                    self@.wf(),
                    q0 < self@.current,
                    grammar::arguments(toks, q0, Seq::empty()) == arguments_rest(toks, self@.current, exprs_view(arguments@)),
                    exprs_view(arguments@).len() == arguments@.len(),
                decreases toks.len() - self@.current,
            {
                self.advance();
                if arguments.len() >= MAX_ARGUMENTS {
                    return Err(self.too_many("Can't have more than 255 arguments"));
                }
                let next = Box::new(self.expression()?);
                proof {
                    lemma_exprs_view_push(arguments@, next);
                }
                arguments.push(next);
            }
        }
        self.consume(TokenKind::CLOSE_PAREN, "Expect ')' after arguments")?;
        Ok(Expr::Call { callee: Box::new(callee), arguments, line, col })
    }

    /// The elements of an array literal whose `[` was just read, and the `]`.
    fn create_array(&mut self) -> (r: Result<Expr, ParseError>)
        requires
            old(self)@.wf(),
        ensures
            final(self)@.tokens == old(self)@.tokens,
            final(self)@.wf(),
            match elements(old(self)@.tokens, old(self)@.current) {
                Ok((es, q)) => r matches Ok(x) && x@ == (SpecExpr::Array { elements: es })
                    && final(self)@.current == q && old(self)@.current < q,
                Err(err) => r matches Err(x) && x@ == err,
            },
        decreases old(self).tokens@.len() - old(self).current, 41nat,
    {
        let ghost toks = self@.tokens;
        let ghost q0 = self@.current;
        let mut elements: Vec<Box<Expr>> = Vec::new();
        if self.compare(&TokenKind::CLOSE_BRACK) {
            self.consume(TokenKind::CLOSE_BRACK, "Expect ']' after array.")?;
            return Ok(Expr::Array { elements });
        }
        loop
            invariant
                self@.tokens == toks,
                toks == old(self)@.tokens,
                q0 == old(self)@.current,
                self@.wf(),
                q0 <= self@.current,
                grammar::elements(toks, q0) == elements_rest(toks, self@.current, exprs_view(elements@)),
            decreases toks.len() - self@.current,
        {
            let e = Box::new(self.expression()?);
            proof {
                lemma_exprs_view_push(elements@, e);
            }
            elements.push(e);
            if !self.compare(&TokenKind::COMMA) {
                self.consume(TokenKind::CLOSE_BRACK, "Expect ']' after array.")?;
                return Ok(Expr::Array { elements });
            }
            self.advance();
        }
    }

    /// The fields of a hashmap literal whose `{` was just read, and the `}`.
    fn create_hashmap(&mut self) -> (r: Result<Expr, ParseError>)
        requires
            old(self)@.wf(),
        ensures
            final(self)@.tokens == old(self)@.tokens,
            final(self)@.wf(),
            match fields(old(self)@.tokens, old(self)@.current) {
                Ok((fs, q)) => r matches Ok(x) && x@ == (SpecExpr::Hashmap { fields: fs })
                    && final(self)@.current == q && old(self)@.current < q,
                Err(err) => r matches Err(x) && x@ == err,
            },
        decreases old(self).tokens@.len() - old(self).current, 41nat,
    {
        let ghost toks = self@.tokens;
        let ghost q0 = self@.current;
        let mut fields: Vec<(String, Box<Expr>)> = Vec::new();
        if self.compare(&TokenKind::CLOSE_BRACE) {
            self.consume(TokenKind::CLOSE_BRACE, "Expect '}' after hashmap body")?;
            return Ok(Expr::Hashmap { fields });
        }
        loop
            invariant
                self@.tokens == toks,
                toks == old(self)@.tokens,
                q0 == old(self)@.current,
                self@.wf(),
                q0 <= self@.current,
                grammar::fields(toks, q0) == fields_rest(toks, self@.current, fields_view(fields@)),
            decreases toks.len() - self@.current,
        {
            let key_tok = self.consume_ident("Expect key name in hashmap")?;
            let key = match key_tok.kind {
                TokenKind::IDENT(name) => name,
                _ => {
                    return Err(ParseError::UnexpectedEof);
                },
            };
            self.consume(TokenKind::COLON, "Expect ':' after hashmap key")?;
            let value = self.expression()?;
            let field = (key, Box::new(value));
            proof {
                lemma_fields_view_push(fields@, field);
            }
            fields.push(field);
            if self.compare(&TokenKind::COMMA) {
                self.advance();
                if self.compare(&TokenKind::CLOSE_BRACE) {
                    self.consume(TokenKind::CLOSE_BRACE, "Expect '}' after hashmap body")?;
                    return Ok(Expr::Hashmap { fields });
                }
            } else {
                self.consume(TokenKind::CLOSE_BRACE, "Expect '}' after hashmap body")?;
                return Ok(Expr::Hashmap { fields });
            }
        }
    }

    fn primary(&mut self) -> (r: Result<Expr, ParseError>)
        requires
            old(self)@.wf(),
        ensures
            read_expr(r, primary(old(self)@.tokens, old(self)@.current), old(self)@, final(self)@),
        decreases old(self).tokens@.len() - old(self).current, 6nat,
    {
        let tok = self.advance_token()?;
        let is_literal = matches!(tok.kind, TokenKind::NUM(_) | TokenKind::TRUE | TokenKind::FALSE | TokenKind::NULL | TokenKind::STRING(_));
        if is_literal {
            return Ok(Expr::Literal(tok));
        }
        match tok.kind {
            TokenKind::OPEN_PAREN => {
                let expr = self.expression()?;
                self.consume(TokenKind::CLOSE_PAREN, "Expect ')' after expression")?;
                Ok(Expr::Group { expr: Box::new(expr) })
            },
            TokenKind::IDENT(_) => Ok(Expr::Var { name: tok, id: self.current - 1 }),
            TokenKind::OPEN_BRACK => self.create_array(),
            TokenKind::OPEN_BRACE => self.create_hashmap(),
            _ => Err(ParseError::UnexpectedToken { token: tok.text(), line: tok.span.line, col: tok.span.column }),
        }
    }

    // -----------------------------------------------------------------------
    // Primitives
    // -----------------------------------------------------------------------

    /// The error for an over-long list, at the current token.
    fn too_many(&self, message: &str) -> (r: ParseError)
        requires
            self@.wf(),
        ensures
            r@ == too_many(self@.tokens, self@.current, message@),
    {
        match self.peek() {
            Some(tok) => ParseError::InvalidStatement { message: owned(message), line: tok.span.line, col: tok.span.column },
            None => ParseError::UnexpectedEof,
        }
    }

    fn is_empty(&self) -> (r: bool)
        requires
            self@.wf(),
        ensures
            r == (peek(self@.tokens, self@.current) is None),
    {
        self.peek().is_none()
    }

    /// The token at the current position, unless the input has ended.
    fn peek(&self) -> (r: Option<&Token>)
        requires
            self@.wf(),
        ensures
            match r {
                Some(t) => peek(self@.tokens, self@.current) == Some(*t),
                None => peek(self@.tokens, self@.current) is None,
            },
    {
        self.peek_nth(0)
    }

    /// The token after the current one, unless the input has ended there.
    fn peek_next(&self) -> (r: Option<&Token>)
        requires
            self@.wf(),
        ensures
            match r {
                Some(t) => peek(self@.tokens, self@.current + 1) == Some(*t),
                None => peek(self@.tokens, self@.current + 1) is None,
            },
    {
        self.peek_nth(1)
    }

    /// The token `n` places ahead, unless the input has ended there.
    fn peek_nth(&self, n: usize) -> (r: Option<&Token>)
        requires
            self@.wf(),
        ensures
            match r {
                Some(t) => peek(self@.tokens, self@.current + n) == Some(*t),
                None => peek(self@.tokens, self@.current + n) is None,
            },
    {
        if n < self.tokens.len() - self.current {
            let t = &self.tokens[self.current + n];
            if matches!(t.kind, TokenKind::EOF) {
                None
            } else {
                Some(t)
            }
        } else {
            None
        }
    }

    /// Moves past the current token, unless the input has ended.
    fn advance(&mut self)
        requires
            old(self)@.wf(),
        ensures
            final(self)@.tokens == old(self)@.tokens,
            final(self)@.wf(),
            final(self)@.current == if peek(old(self)@.tokens, old(self)@.current) is Some {
                old(self)@.current + 1
            } else {
                old(self)@.current
            },
    {
        if !self.is_empty() {
            assert(self.current < self.tokens.len());
            self.current = self.current + 1;
        }
    }

    /// The current token, moving past it; fails at the end of input.
    fn advance_token(&mut self) -> (r: Result<Token, ParseError>)
        requires
            old(self)@.wf(),
        ensures
            final(self)@.tokens == old(self)@.tokens,
            final(self)@.wf(),
            match peek(old(self)@.tokens, old(self)@.current) {
                Some(t) => r == Ok::<Token, ParseError>(t) && final(self)@.current == old(self)@.current + 1,
                None => r matches Err(x) && x@ == crate::errors::parse_error::SpecParseError::UnexpectedEof,
            },
    {
        let tok = match self.peek() {
            Some(t) => t.duplicate(),
            None => return Err(ParseError::UnexpectedEof),
        };
        assert(self.current < self.tokens.len());
        self.current = self.current + 1;
        Ok(tok)
    }

    /// Reads a token of the plain kind `kind` (see `consume`).
    fn consume(&mut self, kind: TokenKind, message: &str) -> (r: Result<(), ParseError>)
        requires
            old(self)@.wf(),
            kind.is_plain(),
        ensures
            final(self)@.tokens == old(self)@.tokens,
            final(self)@.wf(),
            match consume(old(self)@.tokens, old(self)@.current, kind, message@) {
                Ok(q) => r is Ok && final(self)@.current == q,
                Err(e) => r matches Err(x) && x@ == e,
            },
    {
        match self.peek() {
            Some(tok) => {
                proof {
                    lemma_agrees_plain(tok.kind, kind);
                }
                if tok.kind.same(&kind) {
                    assert(self.current < self.tokens.len());
                    self.current = self.current + 1;
                    Ok(())
                } else {
                    Err(ParseError::ExpectedToken { message: owned(message), line: tok.span.line, col: tok.span.column })
                }
            },
            None => Err(ParseError::UnexpectedEof),
        }
    }

    /// Reads an identifier token (see `consume_ident`).
    fn consume_ident(&mut self, message: &str) -> (r: Result<Token, ParseError>)
        requires
            old(self)@.wf(),
        ensures
            final(self)@.tokens == old(self)@.tokens,
            final(self)@.wf(),
            match consume_ident(old(self)@.tokens, old(self)@.current, message@) {
                Ok((t, q)) => r == Ok::<Token, ParseError>(t) && final(self)@.current == q,
                Err(e) => r matches Err(x) && x@ == e,
            },
    {
        let is_ident = match self.peek() {
            Some(tok) => {
                if matches!(tok.kind, TokenKind::IDENT(_)) {
                    true
                } else {
                    return Err(ParseError::ExpectedToken { message: owned(message), line: tok.span.line, col: tok.span.column });
                }
            },
            None => return Err(ParseError::UnexpectedEof),
        };
        self.advance_token()
    }

    /// Whether the current token is of the plain kind `kind`.
    fn compare(&self, kind: &TokenKind) -> (r: bool)
        requires
            self@.wf(),
            kind.is_plain(),
        ensures
            r == at(self@.tokens, self@.current, *kind),
    {
        match self.peek() {
            Some(tok) => {
                proof {
                    lemma_agrees_plain(tok.kind, *kind);
                }
                tok.kind.same(kind)
            },
            None => false,
        }
    }
}

} // verus!
