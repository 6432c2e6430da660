//! Tokens produced by the lexer and consumed by the parser.
use vstd::prelude::*;
use crate::text::{empty_string, push_char, push_str, push_seq, chars_of};

verus! {

/// Where a token ends in the source: the line, and the column just past
/// its last character.
#[derive(Debug, Clone, Copy, PartialEq)]
pub struct Span {
    pub line: usize,
    pub column: usize,
}

/// A token: its kind (with payload) and its span.
#[derive(Debug, Clone, PartialEq)]
pub struct Token {
    pub kind: TokenKind,
    pub span: Span,
}

/// The kinds of tokens of the language.
///
/// A number literal keeps the text of its digits (`12` or `3.25`): the
/// library does no floating-point arithmetic, and a caller that needs the
/// value reads it from this text.
#[allow(non_camel_case_types)]
#[derive(Debug, Clone, PartialEq)]
pub enum TokenKind {
    NUM(String),
    IDENT(String),
    STRING(String),

    IF,
    ELSE,
    VAR,
    TRUE,
    FALSE,
    NULL,
    LOOP,
    FUNC,
    RETURN,
    CLASS,
    INHERIT,
    IN,
    BREAK,
    CONTINUE,

    PLUS,
    MINUS,
    STAR,
    SLASH,
    MOD,
    INC,
    DEC,

    PLUS_EQ,
    MINUS_EQ,
    STAR_EQ,
    SLASH_EQ,
    MOD_EQ,

    EQUAL,
    NOT,

    LESS,
    LESS_EQ,
    GREAT,
    GREAT_EQ,
    EQ_EQ,
    NOT_EQ,

    AND,
    OR,

    OPEN_PAREN,
    CLOSE_PAREN,
    OPEN_BRACE,
    CLOSE_BRACE,
    OPEN_BRACK,
    CLOSE_BRACK,

    DOT,
    COMMA,
    SEMI,
    COLON,
    EOF,
}

/// A token kind as a mathematical value: the payload of a number, an
/// identifier or a string as its characters; a plain kind as itself.
pub enum SpecKind {
    Num(Seq<char>),
    Ident(Seq<char>),
    Str(Seq<char>),
    Plain(TokenKind),
}

/// A token as a mathematical value.
pub struct SpecToken {
    pub kind: SpecKind,
    pub span: Span,
}

impl View for TokenKind {
    type V = SpecKind;

    open spec fn view(&self) -> SpecKind {
        match self {
            TokenKind::NUM(s) => SpecKind::Num(s@),
            TokenKind::IDENT(s) => SpecKind::Ident(s@),
            TokenKind::STRING(s) => SpecKind::Str(s@),
            _ => SpecKind::Plain(*self),
        }
    }
}

impl View for Token {
    type V = SpecToken;

    open spec fn view(&self) -> SpecToken {
        SpecToken { kind: self.kind@, span: self.span }
    }
}

/// The views of a sequence of tokens.
pub open spec fn token_views(ts: Seq<Token>) -> Seq<SpecToken> {
    ts.map_values(|t: Token| t@)
}

/// How a string payload is written inside the text of a token:
/// quote, backslash and the common control characters are escaped.
pub open spec fn escaped_char(c: char) -> Seq<char> {
    if c == '"' {
        seq!['\\', '"']
    } else if c == '\\' {
        seq!['\\', '\\']
    } else if c == '\n' {
        seq!['\\', 'n']
    } else if c == '\t' {
        seq!['\\', 't']
    } else if c == '\r' {
        seq!['\\', 'r']
    } else if c == '\0' {
        seq!['\\', '0']
    } else {
        seq![c]
    }
}

/// The escaped form of a whole payload.
pub open spec fn escaped(s: Seq<char>) -> Seq<char>
    decreases s.len(),
{
    if s.len() == 0 {
        Seq::empty()
    } else {
        escaped(s.drop_last()) + escaped_char(s.last())
    }
}

/// `NAME("payload")` with the payload escaped.
pub open spec fn quoted_payload(name: Seq<char>, s: Seq<char>) -> Seq<char> {
    name + seq!['(', '"'] + escaped(s) + seq!['"', ')']
}

impl TokenKind {
    /// The variant's name as written in the source of this type.
    pub open spec fn spec_name(self) -> Seq<char> {
        match self {
            TokenKind::NUM(_) => seq!['N', 'U', 'M'],
            TokenKind::IDENT(_) => seq!['I', 'D', 'E', 'N', 'T'],
            TokenKind::STRING(_) => seq!['S', 'T', 'R', 'I', 'N', 'G'],
            TokenKind::IF => seq!['I', 'F'],
            TokenKind::ELSE => seq!['E', 'L', 'S', 'E'],
            TokenKind::VAR => seq!['V', 'A', 'R'],
            TokenKind::TRUE => seq!['T', 'R', 'U', 'E'],
            TokenKind::FALSE => seq!['F', 'A', 'L', 'S', 'E'],
            TokenKind::NULL => seq!['N', 'U', 'L', 'L'],
            TokenKind::LOOP => seq!['L', 'O', 'O', 'P'],
            TokenKind::FUNC => seq!['F', 'U', 'N', 'C'],
            TokenKind::RETURN => seq!['R', 'E', 'T', 'U', 'R', 'N'],
            TokenKind::CLASS => seq!['C', 'L', 'A', 'S', 'S'],
            TokenKind::INHERIT => seq!['I', 'N', 'H', 'E', 'R', 'I', 'T'],
            TokenKind::IN => seq!['I', 'N'],
            TokenKind::BREAK => seq!['B', 'R', 'E', 'A', 'K'],
            TokenKind::CONTINUE => seq!['C', 'O', 'N', 'T', 'I', 'N', 'U', 'E'],
            TokenKind::PLUS => seq!['P', 'L', 'U', 'S'],
            TokenKind::MINUS => seq!['M', 'I', 'N', 'U', 'S'],
            TokenKind::STAR => seq!['S', 'T', 'A', 'R'],
            TokenKind::SLASH => seq!['S', 'L', 'A', 'S', 'H'],
            TokenKind::MOD => seq!['M', 'O', 'D'],
            TokenKind::INC => seq!['I', 'N', 'C'],
            TokenKind::DEC => seq!['D', 'E', 'C'],
            TokenKind::PLUS_EQ => seq!['P', 'L', 'U', 'S', '_', 'E', 'Q'],
            TokenKind::MINUS_EQ => seq!['M', 'I', 'N', 'U', 'S', '_', 'E', 'Q'],
            TokenKind::STAR_EQ => seq!['S', 'T', 'A', 'R', '_', 'E', 'Q'],
            TokenKind::SLASH_EQ => seq!['S', 'L', 'A', 'S', 'H', '_', 'E', 'Q'],
            TokenKind::MOD_EQ => seq!['M', 'O', 'D', '_', 'E', 'Q'],
            TokenKind::EQUAL => seq!['E', 'Q', 'U', 'A', 'L'],
            TokenKind::NOT => seq!['N', 'O', 'T'],
            TokenKind::LESS => seq!['L', 'E', 'S', 'S'],
            TokenKind::LESS_EQ => seq!['L', 'E', 'S', 'S', '_', 'E', 'Q'],
            TokenKind::GREAT => seq!['G', 'R', 'E', 'A', 'T'],
            TokenKind::GREAT_EQ => seq!['G', 'R', 'E', 'A', 'T', '_', 'E', 'Q'],
            TokenKind::EQ_EQ => seq!['E', 'Q', '_', 'E', 'Q'],
            TokenKind::NOT_EQ => seq!['N', 'O', 'T', '_', 'E', 'Q'],
            TokenKind::AND => seq!['A', 'N', 'D'],
            TokenKind::OR => seq!['O', 'R'],
            TokenKind::OPEN_PAREN => seq!['O', 'P', 'E', 'N', '_', 'P', 'A', 'R', 'E', 'N'],
            TokenKind::CLOSE_PAREN => seq!['C', 'L', 'O', 'S', 'E', '_', 'P', 'A', 'R', 'E', 'N'],
            TokenKind::OPEN_BRACE => seq!['O', 'P', 'E', 'N', '_', 'B', 'R', 'A', 'C', 'E'],
            TokenKind::CLOSE_BRACE => seq!['C', 'L', 'O', 'S', 'E', '_', 'B', 'R', 'A', 'C', 'E'],
            TokenKind::OPEN_BRACK => seq!['O', 'P', 'E', 'N', '_', 'B', 'R', 'A', 'C', 'K'],
            TokenKind::CLOSE_BRACK => seq!['C', 'L', 'O', 'S', 'E', '_', 'B', 'R', 'A', 'C', 'K'],
            TokenKind::DOT => seq!['D', 'O', 'T'],
            TokenKind::COMMA => seq!['C', 'O', 'M', 'M', 'A'],
            TokenKind::SEMI => seq!['S', 'E', 'M', 'I'],
            TokenKind::COLON => seq!['C', 'O', 'L', 'O', 'N'],
            TokenKind::EOF => seq!['E', 'O', 'F'],
        }
    }

    /// The text of a kind, as error messages show it: the variant's name,
    /// followed for an identifier or a string by its quoted, escaped payload,
    /// and for a number by its digits in brackets.
    pub open spec fn spec_text(self) -> Seq<char> {
        match self {
            TokenKind::NUM(n) => self.spec_name() + seq!['('] + n@ + seq![')'],
            TokenKind::IDENT(s) => quoted_payload(self.spec_name(), s@),
            TokenKind::STRING(s) => quoted_payload(self.spec_name(), s@),
            _ => self.spec_name(),
        }
    }

    /// Whether the kind carries no payload.
    pub open spec fn is_plain(self) -> bool {
        !(self is NUM || self is IDENT || self is STRING)
    }

    /// A number identifying the variant, so that two plain kinds are equal
    /// exactly when their tags are.
    pub open spec fn spec_tag(self) -> u8 {
        match self {
            TokenKind::NUM(_) => 0,
            TokenKind::IDENT(_) => 1,
            TokenKind::STRING(_) => 2,
            TokenKind::IF => 3,
            TokenKind::ELSE => 4,
            TokenKind::VAR => 5,
            TokenKind::TRUE => 6,
            TokenKind::FALSE => 7,
            TokenKind::LOOP => 8,
            TokenKind::FUNC => 9,
            TokenKind::RETURN => 10,
            TokenKind::CLASS => 11,
            TokenKind::INHERIT => 12,
            TokenKind::IN => 13,
            TokenKind::BREAK => 14,
            TokenKind::CONTINUE => 15,
            TokenKind::PLUS => 16,
            TokenKind::MINUS => 17,
            TokenKind::STAR => 18,
            TokenKind::SLASH => 19,
            TokenKind::MOD => 20,
            TokenKind::INC => 21,
            TokenKind::DEC => 22,
            TokenKind::PLUS_EQ => 23,
            TokenKind::MINUS_EQ => 24,
            TokenKind::STAR_EQ => 25,
            TokenKind::SLASH_EQ => 26,
            TokenKind::MOD_EQ => 27,
            TokenKind::EQUAL => 28,
            TokenKind::NOT => 29,
            TokenKind::LESS => 30,
            TokenKind::LESS_EQ => 31,
            TokenKind::GREAT => 32,
            TokenKind::GREAT_EQ => 33,
            TokenKind::EQ_EQ => 34,
            TokenKind::NOT_EQ => 35,
            TokenKind::OPEN_PAREN => 36,
            TokenKind::CLOSE_PAREN => 37,
            TokenKind::OPEN_BRACE => 38,
            TokenKind::CLOSE_BRACE => 39,
            TokenKind::OPEN_BRACK => 40,
            TokenKind::CLOSE_BRACK => 41,
            TokenKind::DOT => 42,
            TokenKind::COMMA => 43,
            TokenKind::SEMI => 44,
            TokenKind::COLON => 45,
            TokenKind::EOF => 46,
            TokenKind::AND => 47,
            TokenKind::OR => 48,
            TokenKind::NULL => 49,
        }
    }

    /// The variant tag (see `spec_tag`).
    pub fn tag(&self) -> (t: u8)
        ensures
            t == self.spec_tag(),
    {
        match self {
            TokenKind::NUM(_) => 0,
            TokenKind::IDENT(_) => 1,
            TokenKind::STRING(_) => 2,
            TokenKind::IF => 3,
            TokenKind::ELSE => 4,
            TokenKind::VAR => 5,
            TokenKind::TRUE => 6,
            TokenKind::FALSE => 7,
            TokenKind::LOOP => 8,
            TokenKind::FUNC => 9,
            TokenKind::RETURN => 10,
            TokenKind::CLASS => 11,
            TokenKind::INHERIT => 12,
            TokenKind::IN => 13,
            TokenKind::BREAK => 14,
            TokenKind::CONTINUE => 15,
            TokenKind::PLUS => 16,
            TokenKind::MINUS => 17,
            TokenKind::STAR => 18,
            TokenKind::SLASH => 19,
            TokenKind::MOD => 20,
            TokenKind::INC => 21,
            TokenKind::DEC => 22,
            TokenKind::PLUS_EQ => 23,
            TokenKind::MINUS_EQ => 24,
            TokenKind::STAR_EQ => 25,
            TokenKind::SLASH_EQ => 26,
            TokenKind::MOD_EQ => 27,
            TokenKind::EQUAL => 28,
            TokenKind::NOT => 29,
            TokenKind::LESS => 30,
            TokenKind::LESS_EQ => 31,
            TokenKind::GREAT => 32,
            TokenKind::GREAT_EQ => 33,
            TokenKind::EQ_EQ => 34,
            TokenKind::NOT_EQ => 35,
            TokenKind::OPEN_PAREN => 36,
            TokenKind::CLOSE_PAREN => 37,
            TokenKind::OPEN_BRACE => 38,
            TokenKind::CLOSE_BRACE => 39,
            TokenKind::OPEN_BRACK => 40,
            TokenKind::CLOSE_BRACK => 41,
            TokenKind::DOT => 42,
            TokenKind::COMMA => 43,
            TokenKind::SEMI => 44,
            TokenKind::COLON => 45,
            TokenKind::EOF => 46,
            TokenKind::AND => 47,
            TokenKind::OR => 48,
            TokenKind::NULL => 49,
        }
    }

    /// The text a kind carries: the digits, name or string value, and
    /// nothing for a plain kind.
    pub open spec fn payload(self) -> Seq<char> {
        match self {
            TokenKind::NUM(s) => s@,
            TokenKind::IDENT(s) => s@,
            TokenKind::STRING(s) => s@,
            _ => Seq::empty(),
        }
    }

    /// Two kinds agree: same variant and same payload text.
    pub open spec fn agrees(self, other: TokenKind) -> bool {
        self.spec_tag() == other.spec_tag() && self.payload() == other.payload()
    }

    /// Whether two kinds agree (see `agrees`).
    pub fn same(&self, other: &TokenKind) -> (r: bool)
        ensures
            r == self.agrees(*other),
    {
        match (self, other) {
            (TokenKind::NUM(a), TokenKind::NUM(b)) => *a == *b,
            (TokenKind::IDENT(a), TokenKind::IDENT(b)) => *a == *b,
            (TokenKind::STRING(a), TokenKind::STRING(b)) => *a == *b,
            _ => {
                let r = self.tag() == other.tag();
                proof {
                    if r {
                        assert(self.is_plain() && other.is_plain());
                        assert(self.payload() =~= other.payload());
                    }
                }
                r
            }
        }
    }

    /// A copy of the kind.
    pub fn duplicate(&self) -> (r: TokenKind)
        ensures
            r == *self,
    {
        match self {
            TokenKind::NUM(s) => TokenKind::NUM(s.clone()),
            TokenKind::IDENT(s) => TokenKind::IDENT(s.clone()),
            TokenKind::STRING(s) => TokenKind::STRING(s.clone()),
            TokenKind::IF => TokenKind::IF,
            TokenKind::ELSE => TokenKind::ELSE,
            TokenKind::VAR => TokenKind::VAR,
            TokenKind::TRUE => TokenKind::TRUE,
            TokenKind::FALSE => TokenKind::FALSE,
            TokenKind::NULL => TokenKind::NULL,
            TokenKind::LOOP => TokenKind::LOOP,
            TokenKind::FUNC => TokenKind::FUNC,
            TokenKind::RETURN => TokenKind::RETURN,
            TokenKind::CLASS => TokenKind::CLASS,
            TokenKind::INHERIT => TokenKind::INHERIT,
            TokenKind::IN => TokenKind::IN,
            TokenKind::BREAK => TokenKind::BREAK,
            TokenKind::CONTINUE => TokenKind::CONTINUE,
            TokenKind::PLUS => TokenKind::PLUS,
            TokenKind::MINUS => TokenKind::MINUS,
            TokenKind::STAR => TokenKind::STAR,
            TokenKind::SLASH => TokenKind::SLASH,
            TokenKind::MOD => TokenKind::MOD,
            TokenKind::INC => TokenKind::INC,
            TokenKind::DEC => TokenKind::DEC,
            TokenKind::PLUS_EQ => TokenKind::PLUS_EQ,
            TokenKind::MINUS_EQ => TokenKind::MINUS_EQ,
            TokenKind::STAR_EQ => TokenKind::STAR_EQ,
            TokenKind::SLASH_EQ => TokenKind::SLASH_EQ,
            TokenKind::MOD_EQ => TokenKind::MOD_EQ,
            TokenKind::EQUAL => TokenKind::EQUAL,
            TokenKind::NOT => TokenKind::NOT,
            TokenKind::LESS => TokenKind::LESS,
            TokenKind::LESS_EQ => TokenKind::LESS_EQ,
            TokenKind::GREAT => TokenKind::GREAT,
            TokenKind::GREAT_EQ => TokenKind::GREAT_EQ,
            TokenKind::EQ_EQ => TokenKind::EQ_EQ,
            TokenKind::NOT_EQ => TokenKind::NOT_EQ,
            TokenKind::AND => TokenKind::AND,
            TokenKind::OR => TokenKind::OR,
            TokenKind::OPEN_PAREN => TokenKind::OPEN_PAREN,
            TokenKind::CLOSE_PAREN => TokenKind::CLOSE_PAREN,
            TokenKind::OPEN_BRACE => TokenKind::OPEN_BRACE,
            TokenKind::CLOSE_BRACE => TokenKind::CLOSE_BRACE,
            TokenKind::OPEN_BRACK => TokenKind::OPEN_BRACK,
            TokenKind::CLOSE_BRACK => TokenKind::CLOSE_BRACK,
            TokenKind::DOT => TokenKind::DOT,
            TokenKind::COMMA => TokenKind::COMMA,
            TokenKind::SEMI => TokenKind::SEMI,
            TokenKind::COLON => TokenKind::COLON,
            TokenKind::EOF => TokenKind::EOF,
        }
    }

    /// The text of the kind (see `spec_text`), as error messages show it.
    pub fn text(&self) -> (r: String)
        ensures
            r@ == self.spec_text(),
    {
        let mut out = empty_string();
        push_name(&mut out, self);
        match self {
            TokenKind::NUM(n) => {
                push_char(&mut out, '(');
                push_str(&mut out, n.as_str());
                push_char(&mut out, ')');
            },
            TokenKind::IDENT(s) => {
                push_quoted(&mut out, s);
            },
            TokenKind::STRING(s) => {
                push_quoted(&mut out, s);
            },
            _ => {},
        }
        out
    }
}

/// A kind agrees with a plain kind exactly when it is that kind.
pub proof fn lemma_agrees_plain(a: TokenKind, k: TokenKind)
    requires
        k.is_plain(),
    ensures
        a.agrees(k) == (a == k),
{
}

impl Token {
    /// A copy of the token.
    pub fn duplicate(&self) -> (r: Token)
        ensures
            r == *self,
    {
        Token { kind: self.kind.duplicate(), span: Span { line: self.span.line, column: self.span.column } }
    }

    /// The text of the token: that of its kind.
    pub fn text(&self) -> (r: String)
        ensures
            r@ == self.kind.spec_text(),
    {
        self.kind.text()
    }
}

/// Appends `("payload")`, escaped, to `out`.
fn push_quoted(out: &mut String, s: &String)
    ensures
        final(out)@ == old(out)@ + seq!['(', '"'] + escaped(s@) + seq!['"', ')'],
{
    let ghost start = out@;
    push_char(out, '(');
    push_char(out, '"');
    let cs = chars_of(s);
    let mut i: usize = 0;
    while i < cs.len()
        invariant
            i <= cs.len(),
            cs@ == s@,
            out@ == start + seq!['(', '"'] + escaped(cs@.take(i as int)),
        decreases cs.len() - i,
    {
        let c = cs[i];
        let ghost before = out@;
        if c == '"' {
            push_char(out, '\\');
            push_char(out, '"');
        } else if c == '\\' {
            push_char(out, '\\');
            push_char(out, '\\');
        } else if c == '\n' {
            push_char(out, '\\');
            push_char(out, 'n');
        } else if c == '\t' {
            push_char(out, '\\');
            push_char(out, 't');
        } else if c == '\r' {
            push_char(out, '\\');
            push_char(out, 'r');
        } else if c == '\0' {
            push_char(out, '\\');
            push_char(out, '0');
        } else {
            push_char(out, c);
        }
        proof {
            let t = cs@.take(i as int + 1);
            assert(t.drop_last() =~= cs@.take(i as int));
            assert(t.last() == c);
            assert(out@ =~= before + escaped_char(c));
        }
        i = i + 1;
    }
    assert(cs@.take(cs.len() as int) =~= cs@);
    push_char(out, '"');
    push_char(out, ')');
    assert(out@ =~= start + seq!['(', '"'] + escaped(s@) + seq!['"', ')']);
}

/// Appends the variant's name of `k` to `out`.
fn push_name(out: &mut String, k: &TokenKind)
    ensures
        final(out)@ == old(out)@ + k.spec_name(),
{
    let name: Vec<char> = match k {
        TokenKind::NUM(_) => vec!['N', 'U', 'M'],
        TokenKind::IDENT(_) => vec!['I', 'D', 'E', 'N', 'T'],
        TokenKind::STRING(_) => vec!['S', 'T', 'R', 'I', 'N', 'G'],
        TokenKind::IF => vec!['I', 'F'],
        TokenKind::ELSE => vec!['E', 'L', 'S', 'E'],
        TokenKind::VAR => vec!['V', 'A', 'R'],
        TokenKind::TRUE => vec!['T', 'R', 'U', 'E'],
        TokenKind::FALSE => vec!['F', 'A', 'L', 'S', 'E'],
        TokenKind::NULL => vec!['N', 'U', 'L', 'L'],
        TokenKind::LOOP => vec!['L', 'O', 'O', 'P'],
        TokenKind::FUNC => vec!['F', 'U', 'N', 'C'],
        TokenKind::RETURN => vec!['R', 'E', 'T', 'U', 'R', 'N'],
        TokenKind::CLASS => vec!['C', 'L', 'A', 'S', 'S'],
        TokenKind::INHERIT => vec!['I', 'N', 'H', 'E', 'R', 'I', 'T'],
        TokenKind::IN => vec!['I', 'N'],
        TokenKind::BREAK => vec!['B', 'R', 'E', 'A', 'K'],
        TokenKind::CONTINUE => vec!['C', 'O', 'N', 'T', 'I', 'N', 'U', 'E'],
        TokenKind::PLUS => vec!['P', 'L', 'U', 'S'],
        TokenKind::MINUS => vec!['M', 'I', 'N', 'U', 'S'],
        TokenKind::STAR => vec!['S', 'T', 'A', 'R'],
        TokenKind::SLASH => vec!['S', 'L', 'A', 'S', 'H'],
        TokenKind::MOD => vec!['M', 'O', 'D'],
        TokenKind::INC => vec!['I', 'N', 'C'],
        TokenKind::DEC => vec!['D', 'E', 'C'],
        TokenKind::PLUS_EQ => vec!['P', 'L', 'U', 'S', '_', 'E', 'Q'],
        TokenKind::MINUS_EQ => vec!['M', 'I', 'N', 'U', 'S', '_', 'E', 'Q'],
        TokenKind::STAR_EQ => vec!['S', 'T', 'A', 'R', '_', 'E', 'Q'],
        TokenKind::SLASH_EQ => vec!['S', 'L', 'A', 'S', 'H', '_', 'E', 'Q'],
        TokenKind::MOD_EQ => vec!['M', 'O', 'D', '_', 'E', 'Q'],
        TokenKind::EQUAL => vec!['E', 'Q', 'U', 'A', 'L'],
        TokenKind::NOT => vec!['N', 'O', 'T'],
        TokenKind::LESS => vec!['L', 'E', 'S', 'S'],
        TokenKind::LESS_EQ => vec!['L', 'E', 'S', 'S', '_', 'E', 'Q'],
        TokenKind::GREAT => vec!['G', 'R', 'E', 'A', 'T'],
        TokenKind::GREAT_EQ => vec!['G', 'R', 'E', 'A', 'T', '_', 'E', 'Q'],
        TokenKind::EQ_EQ => vec!['E', 'Q', '_', 'E', 'Q'],
        TokenKind::NOT_EQ => vec!['N', 'O', 'T', '_', 'E', 'Q'],
        TokenKind::AND => vec!['A', 'N', 'D'],
        TokenKind::OR => vec!['O', 'R'],
        TokenKind::OPEN_PAREN => vec!['O', 'P', 'E', 'N', '_', 'P', 'A', 'R', 'E', 'N'],
        TokenKind::CLOSE_PAREN => vec!['C', 'L', 'O', 'S', 'E', '_', 'P', 'A', 'R', 'E', 'N'],
        TokenKind::OPEN_BRACE => vec!['O', 'P', 'E', 'N', '_', 'B', 'R', 'A', 'C', 'E'],
        TokenKind::CLOSE_BRACE => vec!['C', 'L', 'O', 'S', 'E', '_', 'B', 'R', 'A', 'C', 'E'],
        TokenKind::OPEN_BRACK => vec!['O', 'P', 'E', 'N', '_', 'B', 'R', 'A', 'C', 'K'],
        TokenKind::CLOSE_BRACK => vec!['C', 'L', 'O', 'S', 'E', '_', 'B', 'R', 'A', 'C', 'K'],
        TokenKind::DOT => vec!['D', 'O', 'T'],
        TokenKind::COMMA => vec!['C', 'O', 'M', 'M', 'A'],
        TokenKind::SEMI => vec!['S', 'E', 'M', 'I'],
        TokenKind::COLON => vec!['C', 'O', 'L', 'O', 'N'],
        TokenKind::EOF => vec!['E', 'O', 'F'],
    };
    assert(name@ =~= k.spec_name());
    push_seq(out, &name);
}

} // verus!
