//! Errors of the lexer.
use vstd::prelude::*;
use crate::errors::{lemma_framed_plain, lemma_framed_plain_text, at_line_col, push_at_line_col, framed, framed_text, layout, location_note, location_text, report_layout};
use crate::paint::{esc, black_on_green_code, red_bold, red_bold_code, shows, yellow, yellow_code};
use crate::text::{empty_string, push_char, push_str};

verus! {

/// What can go wrong while turning source text into tokens.
#[derive(Debug)]
pub enum LexError {
    UndefinedCharacter { char: char, line: usize, col: usize },
    InvalidNumber { lexeme: String, line: usize, col: usize },
    InvalidEscapeCharacter { char: char, line: usize, col: usize },
    ExpectedCharacter { message: String, line: usize, col: usize },
}

/// A lexer error as a mathematical value.
pub enum SpecLexError {
    UndefinedCharacter { char: char, line: usize, col: usize },
    InvalidNumber { lexeme: Seq<char>, line: usize, col: usize },
    InvalidEscapeCharacter { char: char, line: usize, col: usize },
    ExpectedCharacter { message: Seq<char>, line: usize, col: usize },
}

impl View for LexError {
    type V = SpecLexError;

    open spec fn view(&self) -> SpecLexError {
        match self {
            LexError::UndefinedCharacter { char, line, col } =>
                SpecLexError::UndefinedCharacter { char: *char, line: *line, col: *col },
            LexError::InvalidNumber { lexeme, line, col } =>
                SpecLexError::InvalidNumber { lexeme: lexeme@, line: *line, col: *col },
            LexError::InvalidEscapeCharacter { char, line, col } =>
                SpecLexError::InvalidEscapeCharacter { char: *char, line: *line, col: *col },
            LexError::ExpectedCharacter { message, line, col } =>
                SpecLexError::ExpectedCharacter { message: message@, line: *line, col: *col },
        }
    }
}

impl LexError {
    /// Line and column of the error.
    pub open spec fn spec_location(self) -> (usize, usize) {
        match self {
            LexError::UndefinedCharacter { line, col, .. } => (line, col),
            LexError::InvalidNumber { line, col, .. } => (line, col),
            LexError::InvalidEscapeCharacter { line, col, .. } => (line, col),
            LexError::ExpectedCharacter { line, col, .. } => (line, col),
        }
    }

    /// Whether `d` is a text that `detail` may give: the message of the
    /// variant, with the offending text in yellow.
    pub open spec fn is_detail(self, d: Seq<char>) -> bool {
        match self {
            LexError::UndefinedCharacter { char, .. } =>
                framed(d, "Undefined character '"@, yellow_code(), seq![char], "'"@),
            LexError::InvalidNumber { lexeme, .. } =>
                framed(d, "Invalid number '"@, yellow_code(), lexeme@, "'"@),
            LexError::InvalidEscapeCharacter { char, .. } =>
                framed(d, "Invalid escape character '\\"@, yellow_code(), seq![char], "'"@),
            LexError::ExpectedCharacter { message, .. } => d == message@,
        }
    }

    /// Line and column of the error.
    pub fn location(&self) -> (r: (usize, usize))
        ensures
            r == self.spec_location(),
    {
        match self {
            LexError::UndefinedCharacter { line, col, .. } => (*line, *col),
            LexError::InvalidNumber { line, col, .. } => (*line, *col),
            LexError::InvalidEscapeCharacter { line, col, .. } => (*line, *col),
            LexError::ExpectedCharacter { line, col, .. } => (*line, *col),
        }
    }

    /// The message of the error, without its position.
    pub fn detail(&self) -> (r: String)
        ensures
            self.is_detail(r@),
    {
        match self {
            LexError::UndefinedCharacter { char, .. } => {
                let mut one = empty_string();
                push_char(&mut one, *char);
                let y = yellow(one.as_str());
                framed_text("Undefined character '", y, "'", Ghost(yellow_code()), Ghost(one@))
            },
            LexError::InvalidNumber { lexeme, .. } => {
                let y = yellow(lexeme.as_str());
                framed_text("Invalid number '", y, "'", Ghost(yellow_code()), Ghost(lexeme@))
            },
            LexError::InvalidEscapeCharacter { char, .. } => {
                let mut one = empty_string();
                push_char(&mut one, *char);
                let y = yellow(one.as_str());
                framed_text("Invalid escape character '\\", y, "'", Ghost(yellow_code()), Ghost(one@))
            },
            LexError::ExpectedCharacter { message, .. } => message.clone(),
        }
    }

    /// The error's message: what went wrong and where, without colours.
    pub open spec fn spec_message(self) -> Seq<char> {
        match self {
            LexError::UndefinedCharacter { char, line, col } =>
                "Undefined character '"@ + seq![char] + "'"@ + at_line_col(line, col),
            LexError::InvalidNumber { lexeme, line, col } =>
                "Invalid number '"@ + lexeme@ + "'"@ + at_line_col(line, col),
            LexError::InvalidEscapeCharacter { char, line, col } =>
                "Invalid escape character '\\"@ + seq![char] + "'"@ + at_line_col(line, col),
            LexError::ExpectedCharacter { message, line, col } => message@ + at_line_col(line, col),
        }
    }

    /// The error's message (see `spec_message`).
    pub fn message(&self) -> (r: String)
        ensures
            r@ == self.spec_message(),
    {
        let mut s = empty_string();
        match self {
            LexError::UndefinedCharacter { char, line, col } => {
                push_str(&mut s, "Undefined character '");
                push_char(&mut s, *char);
                push_str(&mut s, "'");
                push_at_line_col(&mut s, *line, *col);
            },
            LexError::InvalidNumber { lexeme, line, col } => {
                push_str(&mut s, "Invalid number '");
                push_str(&mut s, lexeme.as_str());
                push_str(&mut s, "'");
                push_at_line_col(&mut s, *line, *col);
            },
            LexError::InvalidEscapeCharacter { char, line, col } => {
                push_str(&mut s, "Invalid escape character '\\");
                push_char(&mut s, *char);
                push_str(&mut s, "'");
                push_at_line_col(&mut s, *line, *col);
            },
            LexError::ExpectedCharacter { message, line, col } => {
                push_str(&mut s, message.as_str());
                push_at_line_col(&mut s, *line, *col);
            },
        }
        s
    }


    /// Whether `r` is a report of the error as `report` writes it.
    pub open spec fn is_report(self, r: Seq<char>) -> bool {
        exists|p: Seq<char>, d: Seq<char>, l: Seq<char>|
            shows(red_bold_code(), "Lex error"@, p) && self.is_detail(d)
            && shows(black_on_green_code(), location_text(self.spec_location().0, self.spec_location().1), l)
            && r == report_layout(p, d, Some(l))
    }

    /// The full report of the error as it is written to the terminal:
    /// `Lex error` in bold red, the detail, and the position note.
    pub fn report(&self) -> (r: String)
        ensures
            self.is_report(r@),
    {
        let (line, col) = self.location();
        let prefix = red_bold("Lex error");
        let detail = self.detail();
        let loc = location_note(line, col);
        let ghost (p, d, l) = (prefix@, detail@, loc@);
        let r = layout(prefix, detail, Some(loc));
        assert(shows(red_bold_code(), "Lex error"@, p) && self.is_detail(d)
            && shows(black_on_green_code(), location_text(line, col), l)
            && r@ == report_layout(p, d, Some(l)));
        r
    }
}

impl LexError {
    /// The detail without colours.
    pub open spec fn plain_detail(self) -> Seq<char> {
        match self {
            LexError::UndefinedCharacter { char, .. } => "Undefined character '"@ + seq![char] + "'"@,
            LexError::InvalidNumber { lexeme, .. } => "Invalid number '"@ + lexeme@ + "'"@,
            LexError::InvalidEscapeCharacter { char, .. } => "Invalid escape character '\\"@ + seq![char] + "'"@,
            LexError::ExpectedCharacter { message, .. } => message@,
        }
    }
}

/// The message is the detail without colours, followed by ` at line L,
/// col C`: the plain detail is what `detail` gives when colouring is off,
/// and a detail holding no escape character is the plain one.
pub proof fn law_message_is_detail_at_position(e: LexError, d: Seq<char>)
    ensures
        e.is_detail(e.plain_detail()),
        e.is_detail(d) && !d.contains(esc()) ==> d == e.plain_detail(),
        e.spec_message() == e.plain_detail() + at_line_col(e.spec_location().0, e.spec_location().1),
{
    match e {
        LexError::UndefinedCharacter { char, .. } => {
            lemma_framed_plain_text("Undefined character '"@, yellow_code(), seq![char], "'"@);
            if e.is_detail(d) && !d.contains(esc()) {
                lemma_framed_plain(d, "Undefined character '"@, yellow_code(), seq![char], "'"@);
            }
        },
        LexError::InvalidNumber { lexeme, .. } => {
            lemma_framed_plain_text("Invalid number '"@, yellow_code(), lexeme@, "'"@);
            if e.is_detail(d) && !d.contains(esc()) {
                lemma_framed_plain(d, "Invalid number '"@, yellow_code(), lexeme@, "'"@);
            }
        },
        LexError::InvalidEscapeCharacter { char, .. } => {
            lemma_framed_plain_text("Invalid escape character '\\"@, yellow_code(), seq![char], "'"@);
            if e.is_detail(d) && !d.contains(esc()) {
                lemma_framed_plain(d, "Invalid escape character '\\"@, yellow_code(), seq![char], "'"@);
            }
        },
        LexError::ExpectedCharacter { .. } => {},
    }
}

} // verus!
