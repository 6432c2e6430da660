//! The lexer: source text to tokens.
//!
//! `lex_from` states, one step at a time, which token (if any) is read at
//! a position, where the next step starts, and how the line and column
//! move on; `Lexer::tokenize` is proved to compute it.
use vstd::prelude::*;
use crate::errors::lex_error::{LexError, SpecLexError};
use crate::lexer::token::{Span, SpecKind, SpecToken, Token, TokenKind, token_views};
use crate::text::{chars_of, empty_string, push_char, push_str};

verus! {

// ---------------------------------------------------------------------------
// Specification
// ---------------------------------------------------------------------------

/// An ASCII digit.
pub open spec fn is_digit(c: char) -> bool {
    '0' <= c && c <= '9'
}

/// An ASCII letter.
pub open spec fn is_alpha(c: char) -> bool {
    ('a' <= c && c <= 'z') || ('A' <= c && c <= 'Z')
}

/// A character that may continue an identifier.
pub open spec fn is_ident_char(c: char) -> bool {
    is_digit(c) || is_alpha(c) || c == '_'
}

/// Any character but a newline.
pub open spec fn not_newline(c: char) -> bool {
    c != '\n'
}

/// The character at `i`, or `'\0'` past the end (what the lexer sees there).
pub open spec fn char_at(src: Seq<char>, i: int) -> char {
    if 0 <= i < src.len() { src[i] } else { '\0' }
}

/// The first position at or after `i` whose character is not in `class`
/// (the length of `src` if there is none).
pub open spec fn run_end(src: Seq<char>, i: int, class: spec_fn(char) -> bool) -> int
    decreases src.len() - i,
{
    if 0 <= i < src.len() && class(src[i]) {
        run_end(src, i + 1, class)
    } else {
        i
    }
}

/// Where a number that starts at `p` ends: digits, then optionally a dot
/// followed by at least one digit and more digits.
pub open spec fn number_end(src: Seq<char>, p: int) -> int {
    let a = run_end(src, p + 1, |c: char| is_digit(c));
    if char_at(src, a) == '.' && is_digit(char_at(src, a + 1)) {
        run_end(src, a + 1, |c: char| is_digit(c))
    } else {
        a
    }
}

/// The keyword a word stands for, if it is one.
pub open spec fn keyword(s: Seq<char>) -> Option<TokenKind> {
    if s == "var"@ { Some(TokenKind::VAR) }
    else if s == "true"@ { Some(TokenKind::TRUE) }
    else if s == "false"@ { Some(TokenKind::FALSE) }
    else if s == "null"@ { Some(TokenKind::NULL) }
    else if s == "if"@ { Some(TokenKind::IF) }
    else if s == "else"@ { Some(TokenKind::ELSE) }
    else if s == "loop"@ { Some(TokenKind::LOOP) }
    else if s == "func"@ { Some(TokenKind::FUNC) }
    else if s == "return"@ { Some(TokenKind::RETURN) }
    else if s == "class"@ { Some(TokenKind::CLASS) }
    else if s == "inherit"@ { Some(TokenKind::INHERIT) }
    else if s == "in"@ { Some(TokenKind::IN) }
    else if s == "break"@ { Some(TokenKind::BREAK) }
    else if s == "continue"@ { Some(TokenKind::CONTINUE) }
    else if s == "and"@ { Some(TokenKind::AND) }
    else if s == "or"@ { Some(TokenKind::OR) }
    else { None }
}

/// The character an escape sequence `\c` stands for inside a string.
pub open spec fn escape_of(c: char) -> Option<char> {
    if c == 'n' { Some('\n') }
    else if c == 't' { Some('\t') }
    else if c == 'r' { Some('\r') }
    else if c == '"' { Some('"') }
    else if c == '\'' { Some('\'') }
    else if c == '\\' { Some('\\') }
    else { None }
}

/// The message for a string that is never closed.
pub open spec fn unterminated_string(quote: char) -> Seq<char> {
    "unterminated string, '"@ + seq![quote] + "' was never closed"@
}

/// The message for a block comment that is never closed.
pub open spec fn unterminated_comment() -> Seq<char> {
    "unterminated multiline comment"@
}

/// Reads the rest of a string literal from `q` (just past the opening
/// quote) with the value read so far in `acc`. Gives the position and
/// column just past the closing quote, and the value.
pub open spec fn string_scan(src: Seq<char>, q: int, line: int, col: int, quote: char, acc: Seq<char>)
    -> Result<(int, int, Seq<char>), SpecLexError>
    decreases src.len() - q,
{
    if q < 0 || q >= src.len() {
        Err(SpecLexError::ExpectedCharacter { message: unterminated_string(quote), line: line as usize, col: col as usize })
    } else if src[q] == '\\' {
        let e = char_at(src, q + 1);
        match escape_of(e) {
            Some(x) => string_scan(src, q + 2, line, col + 2, quote, acc.push(x)),
            None => Err(SpecLexError::InvalidEscapeCharacter { char: e, line: line as usize, col: (col + 1) as usize }),
        }
    } else if src[q] == quote {
        Ok((q + 1, col + 1, acc))
    } else {
        string_scan(src, q + 1, line, col + 1, quote, acc.push(src[q]))
    }
}

/// Skips the rest of a block comment from `q` (just past `/*`). Gives the
/// position and column just past the closing `*/`. A newline inside the
/// comment sets the column back to 1 and leaves the line as it is.
pub open spec fn block_comment(src: Seq<char>, q: int, line: int, col: int) -> Result<(int, int), SpecLexError>
    decreases src.len() - q,
{
    if q < 0 || q >= src.len() {
        Err(SpecLexError::ExpectedCharacter { message: unterminated_comment(), line: line as usize, col: col as usize })
    } else if src[q] == '*' && char_at(src, q + 1) == '/' {
        Ok((q + 2, col + 2))
    } else {
        block_comment(src, q + 1, line, if src[q] == '\n' { 1 } else { col + 1 })
    }
}

/// One step of the lexer.
pub enum LexStep {
    /// Nothing is emitted; lexing goes on at `pos`.
    Skip { pos: int, line: int, col: int },
    /// A token of `kind` ends at `pos`.
    Emit { pos: int, line: int, col: int, kind: SpecKind },
    /// Lexing stops with an error.
    Fail(SpecLexError),
}

/// A token of `kind` that is `len` characters long starting at `p`.
pub open spec fn emit(p: int, line: int, col: int, len: int, kind: TokenKind) -> LexStep {
    LexStep::Emit { pos: p + len, line: line, col: col + len, kind: SpecKind::Plain(kind) }
}

/// A one-character operator, or a two-character one when the next
/// character is `second`.
pub open spec fn one_or_two(src: Seq<char>, p: int, line: int, col: int, second: char, two: TokenKind, one: TokenKind) -> LexStep {
    if char_at(src, p + 1) == second {
        emit(p, line, col, 2, two)
    } else {
        emit(p, line, col, 1, one)
    }
}

/// The token kind of a single-character punctuation mark.
pub open spec fn punctuation(c: char) -> Option<TokenKind> {
    if c == ';' { Some(TokenKind::SEMI) }
    else if c == ':' { Some(TokenKind::COLON) }
    else if c == ',' { Some(TokenKind::COMMA) }
    else if c == '.' { Some(TokenKind::DOT) }
    else if c == '(' { Some(TokenKind::OPEN_PAREN) }
    else if c == ')' { Some(TokenKind::CLOSE_PAREN) }
    else if c == '{' { Some(TokenKind::OPEN_BRACE) }
    else if c == '}' { Some(TokenKind::CLOSE_BRACE) }
    else if c == '[' { Some(TokenKind::OPEN_BRACK) }
    else if c == ']' { Some(TokenKind::CLOSE_BRACK) }
    else if c == '&' { Some(TokenKind::AND) }
    else if c == '|' { Some(TokenKind::OR) }
    else { None }
}

/// What the lexer does at position `p` (with `0 <= p < src.len()`), the
/// current line being `line` and the column `col`.
pub open spec fn step(src: Seq<char>, p: int, line: int, col: int) -> LexStep {
    let c = src[p];
    let nx = char_at(src, p + 1);
    if c == ' ' || c == '\t' || c == '\r' {
        LexStep::Skip { pos: p + 1, line: line, col: col + 1 }
    } else if c == '\n' {
        LexStep::Skip { pos: p + 1, line: line + 1, col: 1 }
    } else if punctuation(c) is Some {
        emit(p, line, col, 1, punctuation(c).unwrap())
    } else if c == '+' {
        if nx == '+' { emit(p, line, col, 2, TokenKind::INC) }
        else { one_or_two(src, p, line, col, '=', TokenKind::PLUS_EQ, TokenKind::PLUS) }
    } else if c == '-' {
        if nx == '-' { emit(p, line, col, 2, TokenKind::DEC) }
        else { one_or_two(src, p, line, col, '=', TokenKind::MINUS_EQ, TokenKind::MINUS) }
    } else if c == '*' {
        one_or_two(src, p, line, col, '=', TokenKind::STAR_EQ, TokenKind::STAR)
    } else if c == '%' {
        one_or_two(src, p, line, col, '=', TokenKind::MOD_EQ, TokenKind::MOD)
    } else if c == '/' {
        if nx == '/' {
            let e = run_end(src, p + 2, |x: char| not_newline(x));
            LexStep::Skip { pos: e, line: line, col: col + (e - p) }
        } else if nx == '*' {
            match block_comment(src, p + 2, line, col + 2) {
                Ok((e, c2)) => LexStep::Skip { pos: e, line: line, col: c2 },
                Err(err) => LexStep::Fail(err),
            }
        } else {
            one_or_two(src, p, line, col, '=', TokenKind::SLASH_EQ, TokenKind::SLASH)
        }
    } else if c == '"' || c == '\'' {
        match string_scan(src, p + 1, line, col + 1, c, Seq::empty()) {
            Ok((e, c2, v)) => LexStep::Emit { pos: e, line: line, col: c2, kind: SpecKind::Str(v) },
            Err(err) => LexStep::Fail(err),
        }
    } else if c == '!' {
        one_or_two(src, p, line, col, '=', TokenKind::NOT_EQ, TokenKind::NOT)
    } else if c == '=' {
        one_or_two(src, p, line, col, '=', TokenKind::EQ_EQ, TokenKind::EQUAL)
    } else if c == '>' {
        one_or_two(src, p, line, col, '=', TokenKind::GREAT_EQ, TokenKind::GREAT)
    } else if c == '<' {
        one_or_two(src, p, line, col, '=', TokenKind::LESS_EQ, TokenKind::LESS)
    } else if is_digit(c) {
        let e = number_end(src, p);
        LexStep::Emit { pos: e, line: line, col: col + (e - p), kind: SpecKind::Num(src.subrange(p, e)) }
    } else if is_alpha(c) || c == '_' {
        let e = run_end(src, p + 1, |x: char| is_ident_char(x));
        let word = src.subrange(p, e);
        LexStep::Emit {
            pos: e,
            line: line,
            col: col + (e - p),
            kind: match keyword(word) {
                Some(k) => SpecKind::Plain(k),
                None => SpecKind::Ident(word),
            },
        }
    } else {
        LexStep::Fail(SpecLexError::UndefinedCharacter { char: c, line: line as usize, col: (col + 1) as usize })
    }
}

/// A token of `kind` with the given end position.
pub open spec fn spec_token(kind: SpecKind, line: int, col: int) -> SpecToken {
    SpecToken { kind: kind, span: Span { line: line as usize, column: col as usize } }
}

/// `ts` in front of what `r` holds, if it holds tokens.
pub open spec fn prefixed(ts: Seq<SpecToken>, r: Result<Seq<SpecToken>, SpecLexError>) -> Result<Seq<SpecToken>, SpecLexError> {
    match r {
        Ok(rest) => Ok(ts + rest),
        Err(e) => Err(e),
    }
}

/// The tokens of `src` from position `p` on, the line being `line` and the
/// column `col` there, ending with an end-of-file token; or the first
/// error met.
pub open spec fn lex_from(src: Seq<char>, p: int, line: int, col: int) -> Result<Seq<SpecToken>, SpecLexError>
    decreases src.len() - p,
{
    if p < 0 || p >= src.len() {
        Ok(seq![spec_token(SpecKind::Plain(TokenKind::EOF), line, col)])
    } else {
        match step(src, p, line, col) {
            LexStep::Skip { pos, line: l2, col: c2 } =>
                if p < pos <= src.len() { lex_from(src, pos, l2, c2) } else { Err(SpecLexError::ExpectedCharacter { message: Seq::empty(), line: 0, col: 0 }) },
            LexStep::Emit { pos, line: l2, col: c2, kind } =>
                if p < pos <= src.len() {
                    prefixed(seq![spec_token(kind, l2, c2)], lex_from(src, pos, l2, c2))
                } else {
                    Err(SpecLexError::ExpectedCharacter { message: Seq::empty(), line: 0, col: 0 })
                },
            LexStep::Fail(e) => Err(e),
        }
    }
}

/// The tokens of a whole source text.
pub open spec fn lex(src: Seq<char>) -> Result<Seq<SpecToken>, SpecLexError> {
    lex_from(src, 0, 1, 1)
}

// ---------------------------------------------------------------------------
// Facts about the specification
// ---------------------------------------------------------------------------

/// `run_end` never goes back and never passes the end.
pub proof fn lemma_run_end(src: Seq<char>, i: int, class: spec_fn(char) -> bool)
    requires
        0 <= i <= src.len(),
    ensures
        i <= run_end(src, i, class) <= src.len(),
        forall|j: int| i <= j < run_end(src, i, class) ==> class(#[trigger] src[j]),
        run_end(src, i, class) < src.len() ==> !class(src[run_end(src, i, class)]),
    decreases src.len() - i,
{
    if i < src.len() && class(src[i]) {
        lemma_run_end(src, i + 1, class);
    }
}

/// A string literal ends past its start and within the text.
pub proof fn lemma_string_scan(src: Seq<char>, q: int, line: int, col: int, quote: char, acc: Seq<char>)
    requires
        0 <= q,
    ensures
        string_scan(src, q, line, col, quote, acc) matches Ok((e, c2, v)) ==> q < e <= src.len() && c2 == col + (e - q),
    decreases src.len() - q,
{
    if q < src.len() {
        if src[q] == '\\' {
            if escape_of(char_at(src, q + 1)) is Some {
                lemma_string_scan(src, q + 2, line, col + 2, quote, acc.push(escape_of(char_at(src, q + 1)).unwrap()));
            }
        } else if src[q] != quote {
            lemma_string_scan(src, q + 1, line, col + 1, quote, acc.push(src[q]));
        }
    }
}

/// A block comment ends past its start and within the text; the column
/// stays within one past the end position.
pub proof fn lemma_block_comment(src: Seq<char>, q: int, line: int, col: int)
    requires
        0 <= q,
        1 <= col <= q + 1,
    ensures
        block_comment(src, q, line, col) matches Ok((e, c2)) ==> q < e <= src.len() && 1 <= c2 <= e + 1,
    decreases src.len() - q,
{
    if q < src.len() && !(src[q] == '*' && char_at(src, q + 1) == '/') {
        lemma_block_comment(src, q + 1, line, if src[q] == '\n' { 1 } else { col + 1 });
    }
}

/// Every step moves forward and stays within the text; the line and the
/// column stay within one past the new position.
pub proof fn lemma_step(src: Seq<char>, p: int, line: int, col: int)
    requires
        0 <= p < src.len(),
        1 <= line <= p + 1,
        1 <= col <= p + 1,
    ensures
        match step(src, p, line, col) {
            LexStep::Skip { pos, line: l2, col: c2 } => p < pos <= src.len() && 1 <= l2 <= pos + 1 && 1 <= c2 <= pos + 1,
            LexStep::Emit { pos, line: l2, col: c2, kind } => p < pos <= src.len() && 1 <= l2 <= pos + 1 && 1 <= c2 <= pos + 1,
            LexStep::Fail(_) => true,
        },
{
    lemma_run_end(src, p + 1, |c: char| is_digit(c));
    lemma_run_end(src, p + 1, |c: char| is_ident_char(c));
    if p + 2 <= src.len() {
        lemma_run_end(src, p + 2, |c: char| not_newline(c));
        lemma_block_comment(src, p + 2, line, col + 2);
    }
    lemma_string_scan(src, p + 1, line, col + 1, src[p], Seq::empty());
    let a = run_end(src, p + 1, |c: char| is_digit(c));
    if char_at(src, a) == '.' && is_digit(char_at(src, a + 1)) {
        lemma_run_end(src, a + 1, |c: char| is_digit(c));
    }
}

/// No step emits an end-of-file token.
pub proof fn lemma_step_not_eof(src: Seq<char>, p: int, line: int, col: int)
    requires
        0 <= p < src.len(),
    ensures
        step(src, p, line, col) matches LexStep::Emit { kind, .. } ==> kind != SpecKind::Plain(TokenKind::EOF),
{
}

/// The shape of what lexing gives from a position: one end-of-file token,
/// last; every line at least `line`, lines never decreasing from one token
/// to the next; every column at least 1.
pub proof fn lemma_lex_from_shape(src: Seq<char>, p: int, line: int, col: int)
    requires
        src.len() < usize::MAX,
        0 <= p <= src.len(),
        1 <= line <= p + 1,
        1 <= col <= p + 1,
    ensures
        lex_from(src, p, line, col) matches Ok(ts) ==> {
            &&& ts.len() >= 1
            &&& ts.last().kind == SpecKind::Plain(TokenKind::EOF)
            &&& forall|i: int| 0 <= i < ts.len() - 1 ==> (#[trigger] ts[i]).kind != SpecKind::Plain(TokenKind::EOF)
            &&& forall|i: int| 0 <= i < ts.len() ==> (#[trigger] ts[i]).span.line >= line && ts[i].span.column >= 1
            &&& forall|i: int, j: int| 0 <= i <= j < ts.len() ==> (#[trigger] ts[i]).span.line <= (#[trigger] ts[j]).span.line
        },
    decreases src.len() - p,
{
    if p < src.len() {
        lemma_step(src, p, line, col);
        lemma_step_not_eof(src, p, line, col);
        match step(src, p, line, col) {
            LexStep::Skip { pos, line: l2, col: c2 } => {
                lemma_lex_from_shape(src, pos, l2, c2);
            },
            LexStep::Emit { pos, line: l2, col: c2, kind } => {
                lemma_lex_from_shape(src, pos, l2, c2);
                let tok = spec_token(kind, l2, c2);
                match lex_from(src, pos, l2, c2) {
                    Ok(rest) => {
                        let ts = seq![tok] + rest;
                        assert(ts.last() == rest.last());
                        assert forall|i: int| 0 <= i < ts.len() - 1 implies (#[trigger] ts[i]).kind != SpecKind::Plain(TokenKind::EOF) by {
                            if i > 0 {
                                assert(ts[i] == rest[i - 1]);
                            }
                        }
                        assert forall|i: int| 0 <= i < ts.len() implies (#[trigger] ts[i]).span.line >= line && ts[i].span.column >= 1 by {
                            if i > 0 {
                                assert(ts[i] == rest[i - 1]);
                            }
                        }
                        assert forall|i: int, j: int| 0 <= i <= j < ts.len() implies (#[trigger] ts[i]).span.line <= (#[trigger] ts[j]).span.line by {
                            if i > 0 {
                                assert(ts[i] == rest[i - 1]);
                                assert(ts[j] == rest[j - 1]);
                            } else if j > 0 {
                                assert(ts[j] == rest[j - 1]);
                            }
                        }
                    },
                    Err(_) => {},
                }
            },
            LexStep::Fail(_) => {},
        }
    }
}

/// Blanks are skipped: a space, a tab or a carriage return emits no token
/// and never fails; lexing from it gives what lexing from the next
/// character, one column on, gives.
pub proof fn law_blanks_are_skipped(src: Seq<char>, p: int, line: int, col: int)
    requires
        0 <= p < src.len(),
        src[p] == ' ' || src[p] == '\t' || src[p] == '\r',
    ensures
        lex_from(src, p, line, col) == lex_from(src, p + 1, line, col + 1),
{
}

/// What a successful lexing of a whole text gives ends with its only
/// end-of-file token; every token is on a line and column at least 1, and
/// tokens come in the order of their lines.
pub proof fn law_lex_shape(src: Seq<char>)
    requires
        src.len() < usize::MAX,
    ensures
        lex(src) matches Ok(ts) ==> {
            &&& ts.len() >= 1
            &&& ts.last().kind == SpecKind::Plain(TokenKind::EOF)
            &&& forall|i: int| 0 <= i < ts.len() - 1 ==> (#[trigger] ts[i]).kind != SpecKind::Plain(TokenKind::EOF)
            &&& forall|i: int| 0 <= i < ts.len() ==> (#[trigger] ts[i]).span.line >= 1 && ts[i].span.column >= 1
            &&& forall|i: int, j: int| 0 <= i <= j < ts.len() ==> (#[trigger] ts[i]).span.line <= (#[trigger] ts[j]).span.line
        },
{
    lemma_lex_from_shape(src, 0, 1, 1);
}

// ---------------------------------------------------------------------------
// Implementation
// ---------------------------------------------------------------------------

/// The state of a lexer, as a mathematical value.
pub struct LexerState {
    pub source: Seq<char>,
    pub start: int,
    pub current: int,
    pub line: int,
    pub column: int,
    pub tokens: Seq<SpecToken>,
}

/// Turns source text into tokens.
pub struct Lexer {
    source: Vec<char>,
    start: usize,
    current: usize,
    line: usize,
    column: usize,
    tokens: Vec<Token>,
}

impl View for Lexer {
    type V = LexerState;

    closed spec fn view(&self) -> LexerState {
        LexerState {
            source: self.source@,
            start: self.start as int,
            current: self.current as int,
            line: self.line as int,
            column: self.column as int,
            tokens: token_views(self.tokens@),
        }
    }
}

impl LexerState {
    /// The positions are consistent: the text is shorter than the largest
    /// `usize`, the current position lies within it, and line and column
    /// are at least 1 and at most one past the current position.
    pub open spec fn wf(self) -> bool {
        &&& self.source.len() < usize::MAX
        &&& 0 <= self.start <= self.current <= self.source.len()
        &&& 1 <= self.line <= self.current + 1
        &&& 1 <= self.column <= self.current + 1
    }
}

/// Whether `s` holds exactly the characters of `w`.
fn is_word(s: &String, w: &str) -> (r: bool)
    ensures
        r == (s@ == w@),
{
    let mut t = empty_string();
    push_str(&mut t, w);
    *s == t
}

/// Whether `c` is an ASCII digit.
pub fn is_ascii_digit(c: char) -> (r: bool)
    ensures
        r == is_digit(c),
{
    '0' <= c && c <= '9'
}

/// Whether `c` is an ASCII letter.
pub fn is_ascii_alpha(c: char) -> (r: bool)
    ensures
        r == is_alpha(c),
{
    ('a' <= c && c <= 'z') || ('A' <= c && c <= 'Z')
}

impl Lexer {
    /// A lexer at the start of `source`: line 1, column 1, no tokens yet.
    pub fn new(source: String) -> (r: Lexer)
        requires
            source@.len() < usize::MAX,
        ensures
            r@ == (LexerState { source: source@, start: 0, current: 0, line: 1, column: 1, tokens: Seq::empty() }),
            r@.wf(),
    {
        let chars = chars_of(&source);
        let r = Lexer { source: chars, start: 0, current: 0, line: 1, column: 1, tokens: Vec::new() };
        assert(token_views(r.tokens@) =~= Seq::<SpecToken>::empty());
        r
    }

    /// Reads all tokens from the current position to the end of the text,
    /// followed by an end-of-file token.
    ///
    /// On success the tokens read are appended to those already held (none
    /// for a fresh lexer), the whole sequence is returned and the lexer
    /// stands at the end of the text; on failure the first error is
    /// returned.
    pub fn tokenize(&mut self) -> (r: Result<&Vec<Token>, LexError>)
        requires
            old(self)@.wf(),
        ensures
            match lex_from(old(self)@.source, old(self)@.current, old(self)@.line, old(self)@.column) {
                Ok(ts) => (r matches Ok(v) && token_views(v@) == old(self)@.tokens + ts)
                    && final(self)@.tokens == old(self)@.tokens + ts
                    && final(self)@.source == old(self)@.source
                    && final(self)@.current == final(self)@.source.len(),
                Err(e) => r matches Err(x) && x@ == e,
            },
    {
        let ghost src = self.source@;
        let ghost p0 = self.current as int;
        let ghost l0 = self.line as int;
        let ghost c0 = self.column as int;
        let ghost t0 = token_views(self.tokens@);
        while !self.is_at_end()
            invariant
                src == old(self)@.source,
                p0 == old(self)@.current,
                l0 == old(self)@.line,
                c0 == old(self)@.column,
                t0 == old(self)@.tokens,
                self@.wf(),
                self@.source == src,
                lex_from(src, p0, l0, c0) == prefixed(self@.tokens.subrange(t0.len() as int, self@.tokens.len() as int),
                    lex_from(src, self@.current, self@.line, self@.column)),
                t0.len() <= self@.tokens.len(),
                self@.tokens.subrange(0, t0.len() as int) == t0,
            decreases src.len() - self@.current,
        {
            self.start = self.current;
            let ghost before = self@;
            proof {
                lemma_step(src, before.current, before.line, before.column);
            }
            let res = self.scan_token();
            match res {
                Ok(()) => {
                    proof {
                        let ts = self@.tokens;
                        let bs = before.tokens;
                        let mid = bs.subrange(t0.len() as int, bs.len() as int);
                        let rest = lex_from(src, self@.current, self@.line, self@.column);
                        match step(src, before.current, before.line, before.column) {
                            LexStep::Skip { .. } => {
                                assert(ts.subrange(t0.len() as int, ts.len() as int) =~= mid);
                            },
                            LexStep::Emit { pos, line: l2, col: c2, kind } => {
                                let tok = spec_token(kind, l2, c2);
                                assert(ts.subrange(t0.len() as int, ts.len() as int) =~= mid + seq![tok]);
                                assert(ts.subrange(0, t0.len() as int) =~= bs.subrange(0, t0.len() as int));
                                match rest {
                                    Ok(r2) => {
                                        assert(mid + (seq![tok] + r2) =~= (mid + seq![tok]) + r2);
                                    },
                                    Err(_) => {},
                                }
                            },
                            LexStep::Fail(_) => {},
                        }
                    }
                },
                Err(e) => {
                    proof {
                        match step(src, before.current, before.line, before.column) {
                            LexStep::Fail(err) => {
                                assert(lex_from(src, before.current, before.line, before.column) == Err::<Seq<SpecToken>, SpecLexError>(err));
                            },
                            _ => {},
                        }
                    }
                    return Err(e);
                },
            }
        }
        let ghost before = self@;
        self.add_token(TokenKind::EOF);
        proof {
            let ts = self@.tokens;
            let bs = before.tokens;
            assert(ts.subrange(0, t0.len() as int) =~= bs.subrange(0, t0.len() as int));
            assert(ts =~= t0 + (bs.subrange(t0.len() as int, bs.len() as int)
                + seq![spec_token(SpecKind::Plain(TokenKind::EOF), before.line, before.column)]));
        }
        Ok(&self.tokens)
    }

    // -----------------------------------------------------------------------

    /// Reads one step (see `step`) at the current position.
    fn scan_token(&mut self) -> (r: Result<(), LexError>)
        requires
            old(self)@.wf(),
            old(self)@.current < old(self)@.source.len(),
            old(self)@.start == old(self)@.current,
        ensures
            final(self)@.source == old(self)@.source,
            match step(old(self)@.source, old(self)@.current, old(self)@.line, old(self)@.column) {
                LexStep::Skip { pos, line, col } =>
                    r is Ok && final(self)@.current == pos && final(self)@.line == line && final(self)@.column == col
                    && final(self)@.tokens == old(self)@.tokens && final(self)@.wf(),
                LexStep::Emit { pos, line, col, kind } =>
                    r is Ok && final(self)@.current == pos && final(self)@.line == line && final(self)@.column == col
                    && final(self)@.tokens == old(self)@.tokens.push(spec_token(kind, line, col)) && final(self)@.wf(),
                LexStep::Fail(e) => (r matches Err(x) && x@ == e) && final(self)@.tokens == old(self)@.tokens,
            },
    {
        proof {
            lemma_step(self@.source, self@.current, self@.line, self@.column);
        }
        let ghost src = self@.source;
        let ghost p = self@.current;
        let ghost col = self@.column;
        let c = self.advance();
        if c == ' ' || c == '\t' || c == '\r' {
            Ok(())
        } else if c == '\n' {
            self.line = self.line + 1;
            self.column = 1;
            Ok(())
        } else if c == ';' {
            self.add_token(TokenKind::SEMI);
            Ok(())
        } else if c == ':' {
            self.add_token(TokenKind::COLON);
            Ok(())
        } else if c == ',' {
            self.add_token(TokenKind::COMMA);
            Ok(())
        } else if c == '.' {
            self.add_token(TokenKind::DOT);
            Ok(())
        } else if c == '+' {
            let kind = if self.match_next('+') {
                TokenKind::INC
            } else if self.match_next('=') {
                TokenKind::PLUS_EQ
            } else {
                TokenKind::PLUS
            };
            self.add_token(kind);
            Ok(())
        } else if c == '-' {
            let kind = if self.match_next('-') {
                TokenKind::DEC
            } else if self.match_next('=') {
                TokenKind::MINUS_EQ
            } else {
                TokenKind::MINUS
            };
            self.add_token(kind);
            Ok(())
        } else if c == '*' {
            let kind = if self.match_next('=') { TokenKind::STAR_EQ } else { TokenKind::STAR };
            self.add_token(kind);
            Ok(())
        } else if c == '%' {
            let kind = if self.match_next('=') { TokenKind::MOD_EQ } else { TokenKind::MOD };
            self.add_token(kind);
            Ok(())
        } else if c == '/' {
            if self.match_next('/') {
                proof {
                    lemma_run_end(src, p + 2, |x: char| not_newline(x));
                }
                while self.peek() != '\n' && !self.is_at_end()
                    invariant
                        self@.source == src,
                        self@.wf(),
                        p + 2 <= self@.current <= run_end(src, p + 2, |x: char| not_newline(x)),
                        self@.column == col + (self@.current - p),
                        self@.tokens == old(self)@.tokens,
                        self@.line == old(self)@.line,
                        forall|j: int| p + 2 <= j < run_end(src, p + 2, |x: char| not_newline(x)) ==> not_newline(#[trigger] src[j]),
                        run_end(src, p + 2, |x: char| not_newline(x)) < src.len()
                            ==> !not_newline(src[run_end(src, p + 2, |x: char| not_newline(x))]),
                    decreases src.len() - self@.current,
                {
                    self.advance();
                }
                Ok(())
            } else if self.match_next('*') {
                self.skip_comment()
            } else if self.match_next('=') {
                self.add_token(TokenKind::SLASH_EQ);
                Ok(())
            } else {
                self.add_token(TokenKind::SLASH);
                Ok(())
            }
        } else if c == '(' {
            self.add_token(TokenKind::OPEN_PAREN);
            Ok(())
        } else if c == ')' {
            self.add_token(TokenKind::CLOSE_PAREN);
            Ok(())
        } else if c == '{' {
            self.add_token(TokenKind::OPEN_BRACE);
            Ok(())
        } else if c == '}' {
            self.add_token(TokenKind::CLOSE_BRACE);
            Ok(())
        } else if c == '[' {
            self.add_token(TokenKind::OPEN_BRACK);
            Ok(())
        } else if c == ']' {
            self.add_token(TokenKind::CLOSE_BRACK);
            Ok(())
        } else if c == '"' || c == '\'' {
            self.scan_string(c)
        } else if c == '!' {
            let kind = if self.match_next('=') { TokenKind::NOT_EQ } else { TokenKind::NOT };
            self.add_token(kind);
            Ok(())
        } else if c == '=' {
            let kind = if self.match_next('=') { TokenKind::EQ_EQ } else { TokenKind::EQUAL };
            self.add_token(kind);
            Ok(())
        } else if c == '>' {
            let kind = if self.match_next('=') { TokenKind::GREAT_EQ } else { TokenKind::GREAT };
            self.add_token(kind);
            Ok(())
        } else if c == '<' {
            let kind = if self.match_next('=') { TokenKind::LESS_EQ } else { TokenKind::LESS };
            self.add_token(kind);
            Ok(())
        } else if c == '&' {
            self.add_token(TokenKind::AND);
            Ok(())
        } else if c == '|' {
            self.add_token(TokenKind::OR);
            Ok(())
        } else if is_ascii_digit(c) {
            self.scan_number();
            Ok(())
        } else if is_ascii_alpha(c) || c == '_' {
            self.scan_identifier();
            Ok(())
        } else {
            Err(LexError::UndefinedCharacter { char: c, line: self.line, col: self.column })
        }
    }

    /// Reads the rest of a number (digits, then optionally a dot and more
    /// digits) and emits it with its text.
    fn scan_number(&mut self)
        requires
            old(self)@.wf(),
            old(self)@.current == old(self)@.start + 1,
            is_digit(old(self)@.source[old(self)@.start]),
        ensures
            final(self)@.source == old(self)@.source,
            final(self)@.start == old(self)@.start,
            final(self)@.current == number_end(old(self)@.source, old(self)@.start),
            final(self)@.line == old(self)@.line,
            final(self)@.column == old(self)@.column + (final(self)@.current - old(self)@.current),
            final(self)@.tokens == old(self)@.tokens.push(spec_token(
                SpecKind::Num(old(self)@.source.subrange(old(self)@.start, final(self)@.current)),
                final(self)@.line, final(self)@.column)),
            final(self)@.wf(),
    {
        let ghost src = self@.source;
        let ghost p = self@.start;
        self.skip_digits();
        if self.peek() == '.' && is_ascii_digit(self.peek_next()) {
            self.advance();
            self.skip_digits();
        }
        let lexeme = self.lexeme();
        self.add_token(TokenKind::NUM(lexeme));
    }

    /// Advances past a run of digits.
    fn skip_digits(&mut self)
        requires
            old(self)@.wf(),
        ensures
            final(self)@.source == old(self)@.source,
            final(self)@.start == old(self)@.start,
            final(self)@.current == run_end(old(self)@.source, old(self)@.current, |c: char| is_digit(c)),
            final(self)@.line == old(self)@.line,
            final(self)@.column == old(self)@.column + (final(self)@.current - old(self)@.current),
            final(self)@.tokens == old(self)@.tokens,
            final(self)@.wf(),
    {
        let ghost src = self@.source;
        let ghost q = self@.current;
        let ghost c0 = self@.column;
        proof {
            lemma_run_end(src, q, |c: char| is_digit(c));
        }
        while is_ascii_digit(self.peek())
            invariant
                self@.source == src,
                self@.wf(),
                q <= self@.current <= run_end(src, q, |c: char| is_digit(c)),
                run_end(src, self@.current, |c: char| is_digit(c)) == run_end(src, q, |c: char| is_digit(c)),
                self@.start == old(self)@.start,
                self@.column == c0 + (self@.current - q),
                self@.tokens == old(self)@.tokens,
                self@.line == old(self)@.line,
            decreases src.len() - self@.current,
        {
            proof {
                lemma_run_end(src, self@.current + 1, |c: char| is_digit(c));
            }
            self.advance();
        }
    }

    /// Reads the rest of a word and emits a keyword or an identifier.
    fn scan_identifier(&mut self)
        requires
            old(self)@.wf(),
            old(self)@.current == old(self)@.start + 1,
        ensures
            final(self)@.source == old(self)@.source,
            final(self)@.current == run_end(old(self)@.source, old(self)@.current, |c: char| is_ident_char(c)),
            final(self)@.line == old(self)@.line,
            final(self)@.column == old(self)@.column + (final(self)@.current - old(self)@.current),
            final(self)@.tokens == old(self)@.tokens.push(spec_token(
                match keyword(old(self)@.source.subrange(old(self)@.start, final(self)@.current)) {
                    Some(k) => SpecKind::Plain(k),
                    None => SpecKind::Ident(old(self)@.source.subrange(old(self)@.start, final(self)@.current)),
                },
                final(self)@.line, final(self)@.column)),
            final(self)@.wf(),
    {
        let ghost src = self@.source;
        let ghost q = self@.current;
        let ghost c0 = self@.column;
        proof {
            lemma_run_end(src, q, |c: char| is_ident_char(c));
        }
        while is_ascii_digit(self.peek()) || is_ascii_alpha(self.peek()) || self.peek() == '_'
            invariant
                self@.source == src,
                self@.wf(),
                q <= self@.current <= run_end(src, q, |c: char| is_ident_char(c)),
                run_end(src, self@.current, |c: char| is_ident_char(c)) == run_end(src, q, |c: char| is_ident_char(c)),
                self@.start == old(self)@.start,
                self@.column == c0 + (self@.current - q),
                self@.tokens == old(self)@.tokens,
                self@.line == old(self)@.line,
            decreases src.len() - self@.current,
        {
            proof {
                lemma_run_end(src, self@.current + 1, |c: char| is_ident_char(c));
            }
            self.advance();
        }
        let lexeme = self.lexeme();
        let kind = match Self::keyword(&lexeme) {
            Some(k) => k,
            None => TokenKind::IDENT(lexeme),
        };
        self.add_token(kind);
    }

    /// Reads a string literal whose opening `quote` was just read, and emits
    /// its value.
    fn scan_string(&mut self, quote: char) -> (r: Result<(), LexError>)
        requires
            old(self)@.wf(),
            old(self)@.current == old(self)@.start + 1,
            quote == '"' || quote == '\'',
        ensures
            final(self)@.source == old(self)@.source,
            match string_scan(old(self)@.source, old(self)@.current, old(self)@.line, old(self)@.column, quote, Seq::empty()) {
                Ok((e, c2, v)) => r is Ok && final(self)@.current == e && final(self)@.column == c2
                    && final(self)@.line == old(self)@.line
                    && final(self)@.tokens == old(self)@.tokens.push(spec_token(SpecKind::Str(v), old(self)@.line, c2))
                    && final(self)@.wf(),
                Err(e) => (r matches Err(x) && x@ == e) && final(self)@.tokens == old(self)@.tokens,
            },
    {
        let ghost src = self@.source;
        let ghost line = self@.line as int;
        let ghost q0 = self@.current;
        let ghost c0 = self@.column;
        let mut value = empty_string();
        proof {
            lemma_string_scan(src, q0, line, c0, quote, Seq::empty());
        }
        while !self.is_at_end()
            invariant_except_break
                src == old(self)@.source,
                q0 == old(self)@.current,
                c0 == old(self)@.column,
                line == old(self)@.line,
                self@.source == src,
                self@.wf(),
                self@.line == line,
                self@.start == old(self)@.start,
                self@.tokens == old(self)@.tokens,
                q0 <= self@.current,
                self@.column == c0 + (self@.current - q0),
                string_scan(src, q0, line, c0, quote, Seq::empty())
                    == string_scan(src, self@.current, line, self@.column, quote, value@),
            ensures
                src == old(self)@.source,
                q0 == old(self)@.current,
                c0 == old(self)@.column,
                line == old(self)@.line,
                self@.source == src,
                self@.wf(),
                self@.line == line,
                self@.start == old(self)@.start,
                self@.tokens == old(self)@.tokens,
                q0 <= self@.current,
                self@.column == c0 + (self@.current - q0),
                string_scan(src, q0, line, c0, quote, Seq::empty())
                    == string_scan(src, self@.current, line, self@.column, quote, value@),
                self@.current < src.len() ==> src[self@.current] == quote,
            decreases src.len() - self@.current,
        {
            let c = self.peek();
            if c == '\\' {
                self.advance();
                let e = self.peek();
                let escaped = if e == 'n' {
                    '\n'
                } else if e == 't' {
                    '\t'
                } else if e == 'r' {
                    '\r'
                } else if e == '"' {
                    '"'
                } else if e == '\'' {
                    '\''
                } else if e == '\\' {
                    '\\'
                } else {
                    return Err(LexError::InvalidEscapeCharacter { char: e, line: self.line, col: self.column });
                };
                push_char(&mut value, escaped);
                self.advance();
            } else if c == quote {
                break;
            } else {
                push_char(&mut value, c);
                self.advance();
            }
        }
        if self.is_at_end() {
            let mut message = empty_string();
            push_str(&mut message, "unterminated string, '");
            push_char(&mut message, quote);
            push_str(&mut message, "' was never closed");
            assert(message@ =~= unterminated_string(quote));
            return Err(LexError::ExpectedCharacter { message, line: self.line, col: self.column });
        }
        self.advance();
        let v = value;
        self.add_token(TokenKind::STRING(v));
        Ok(())
    }

    /// Skips the rest of a block comment whose `/*` was just read.
    #[verifier::loop_isolation(false)]
    fn skip_comment(&mut self) -> (r: Result<(), LexError>)
        requires
            old(self)@.wf(),
            old(self)@.current >= 2,
        ensures
            final(self)@.source == old(self)@.source,
            match block_comment(old(self)@.source, old(self)@.current, old(self)@.line, old(self)@.column) {
                Ok((e, c2)) => r is Ok && final(self)@.current == e && final(self)@.column == c2
                    && final(self)@.line == old(self)@.line
                    && final(self)@.tokens == old(self)@.tokens && final(self)@.wf(),
                Err(e) => (r matches Err(x) && x@ == e) && final(self)@.tokens == old(self)@.tokens,
            },
    {
        let ghost src = self@.source;
        let ghost line = self@.line as int;
        let ghost goal = block_comment(src, self@.current, line, self@.column);
        loop
            invariant
                self@.source == src,
                self@.wf(),
                self@.line == line,
                self@.start == old(self)@.start,
                self@.tokens == old(self)@.tokens,
                goal == block_comment(src, self@.current, line, self@.column),
            decreases src.len() - self@.current,
        {
            if self.is_at_end() {
                let mut message = empty_string();
                push_str(&mut message, "unterminated multiline comment");
                return Err(LexError::ExpectedCharacter { message, line: self.line, col: self.column });
            }
            if self.peek() == '*' && self.peek_next() == '/' {
                self.advance();
                self.advance();
                return Ok(());
            }
            let c = self.advance();
            if c == '\n' {
                self.column = 1;
            }
        }
    }

    // -----------------------------------------------------------------------

    /// The text from the token's start to the current position.
    fn lexeme(&self) -> (r: String)
        requires
            self@.wf(),
        ensures
            r@ == self@.source.subrange(self@.start, self@.current),
    {
        let mut s = empty_string();
        let mut i = self.start;
        while i < self.current
            invariant
                self@.wf(),
                self@.start <= i <= self@.current,
                s@ == self@.source.subrange(self@.start, i as int),
            decreases self@.current - i,
        {
            push_char(&mut s, self.source[i]);
            proof {
                assert(self@.source.subrange(self@.start, i as int + 1)
                    =~= self@.source.subrange(self@.start, i as int).push(self@.source[i as int]));
            }
            i = i + 1;
        }
        s
    }

    /// The keyword a word stands for, if it is one.
    fn keyword(s: &String) -> (r: Option<TokenKind>)
        ensures
            r == keyword(s@),
    {
        if is_word(s, "var") { Some(TokenKind::VAR) }
        else if is_word(s, "true") { Some(TokenKind::TRUE) }
        else if is_word(s, "false") { Some(TokenKind::FALSE) }
        else if is_word(s, "null") { Some(TokenKind::NULL) }
        else if is_word(s, "if") { Some(TokenKind::IF) }
        else if is_word(s, "else") { Some(TokenKind::ELSE) }
        else if is_word(s, "loop") { Some(TokenKind::LOOP) }
        else if is_word(s, "func") { Some(TokenKind::FUNC) }
        else if is_word(s, "return") { Some(TokenKind::RETURN) }
        else if is_word(s, "class") { Some(TokenKind::CLASS) }
        else if is_word(s, "inherit") { Some(TokenKind::INHERIT) }
        else if is_word(s, "in") { Some(TokenKind::IN) }
        else if is_word(s, "break") { Some(TokenKind::BREAK) }
        else if is_word(s, "continue") { Some(TokenKind::CONTINUE) }
        else if is_word(s, "and") { Some(TokenKind::AND) }
        else if is_word(s, "or") { Some(TokenKind::OR) }
        else { None }
    }

    fn is_at_end(&self) -> (r: bool)
        ensures
            r == (self@.current >= self@.source.len()),
    {
        self.current >= self.source.len()
    }

    /// Reads the current character and moves one position and one column on.
    fn advance(&mut self) -> (c: char)
        requires
            old(self)@.wf(),
            old(self)@.current < old(self)@.source.len(),
        ensures
            c == old(self)@.source[old(self)@.current],
            final(self)@ == (LexerState { current: old(self)@.current + 1, column: old(self)@.column + 1, ..old(self)@ }),
            final(self)@.wf(),
    {
        let c = self.source[self.current];
        self.current = self.current + 1;
        self.column = self.column + 1;
        c
    }

    /// Reads the current character if it is `expected`.
    fn match_next(&mut self, expected: char) -> (r: bool)
        requires
            old(self)@.wf(),
        ensures
            r == (char_at(old(self)@.source, old(self)@.current) == expected && old(self)@.current < old(self)@.source.len()),
            r ==> final(self)@ == (LexerState { current: old(self)@.current + 1, column: old(self)@.column + 1, ..old(self)@ }),
            !r ==> final(self)@ == old(self)@,
            final(self)@.wf(),
    {
        if self.is_at_end() || self.source[self.current] != expected {
            return false;
        }
        self.current = self.current + 1;
        self.column = self.column + 1;
        true
    }

    /// The current character, or `'\0'` at the end.
    fn peek(&self) -> (c: char)
        requires
            self@.wf(),
        ensures
            c == char_at(self@.source, self@.current),
    {
        if self.is_at_end() {
            '\0'
        } else {
            self.source[self.current]
        }
    }

    /// The character after the current one, or `'\0'` past the end.
    fn peek_next(&self) -> (c: char)
        requires
            self@.wf(),
        ensures
            c == char_at(self@.source, self@.current + 1),
    {
        if self.current + 1 >= self.source.len() {
            '\0'
        } else {
            self.source[self.current + 1]
        }
    }

    /// Emits a token of `kind` ending at the current line and column.
    fn add_token(&mut self, kind: TokenKind)
        ensures
            final(self)@ == (LexerState {
                tokens: old(self)@.tokens.push(spec_token(kind@, old(self)@.line, old(self)@.column)),
                ..old(self)@
            }),
    {
        let ghost old_tokens = self.tokens@;
        self.tokens.push(Token { kind, span: Span { line: self.line, column: self.column } });
        proof {
            assert(token_views(self.tokens@) =~= token_views(old_tokens).push(
                spec_token(kind@, self.line as int, self.column as int)));
        }
    }
}

} // verus!
