//! Errors of the parser.
use vstd::prelude::*;
use crate::errors::{lemma_framed_plain, lemma_framed_plain_text, at_pos, push_at_pos, framed, framed_text, layout, location_note, location_text, report_layout};
use crate::paint::{esc, black_on_green_code, red_bold, red_bold_code, shows, yellow, yellow_code};
use crate::text::{empty_string, push_str};

verus! {

/// What can go wrong while turning tokens into statements.
#[derive(Debug)]
pub enum ParseError {
    UnexpectedToken { token: String, line: usize, col: usize },
    UnexpectedEof,
    ExpectedToken { message: String, line: usize, col: usize },
    ExpectedName { keyword: &'static str, line: usize, col: usize },
    InvalidStatement { message: String, line: usize, col: usize },
}

/// A parser error as a mathematical value.
pub enum SpecParseError {
    UnexpectedToken { token: Seq<char>, line: usize, col: usize },
    UnexpectedEof,
    ExpectedToken { message: Seq<char>, line: usize, col: usize },
    ExpectedName { keyword: Seq<char>, line: usize, col: usize },
    InvalidStatement { message: Seq<char>, line: usize, col: usize },
}

impl View for ParseError {
    type V = SpecParseError;

    open spec fn view(&self) -> SpecParseError {
        match self {
            ParseError::UnexpectedToken { token, line, col } =>
                SpecParseError::UnexpectedToken { token: token@, line: *line, col: *col },
            ParseError::UnexpectedEof => SpecParseError::UnexpectedEof,
            ParseError::ExpectedToken { message, line, col } =>
                SpecParseError::ExpectedToken { message: message@, line: *line, col: *col },
            ParseError::ExpectedName { keyword, line, col } =>
                SpecParseError::ExpectedName { keyword: keyword@, line: *line, col: *col },
            ParseError::InvalidStatement { message, line, col } =>
                SpecParseError::InvalidStatement { message: message@, line: *line, col: *col },
        }
    }
}

impl ParseError {
    /// Line and column of the error, when it has a position.
    pub open spec fn spec_location(self) -> Option<(usize, usize)> {
        match self {
            ParseError::UnexpectedToken { line, col, .. } => Some((line, col)),
            ParseError::UnexpectedEof => None,
            ParseError::ExpectedToken { line, col, .. } => Some((line, col)),
            ParseError::ExpectedName { line, col, .. } => Some((line, col)),
            ParseError::InvalidStatement { line, col, .. } => Some((line, col)),
        }
    }

    /// Whether `d` is a text that `detail` may give.
    pub open spec fn is_detail(self, d: Seq<char>) -> bool {
        match self {
            ParseError::UnexpectedToken { token, .. } =>
                framed(d, "Unexpected token '"@, yellow_code(), token@, "'"@),
            ParseError::UnexpectedEof => d == "Unexpected end of input"@,
            ParseError::ExpectedToken { message, .. } => d == message@,
            ParseError::ExpectedName { keyword, .. } =>
                framed(d, "Expected name after '"@, yellow_code(), keyword@, "' keyword"@),
            ParseError::InvalidStatement { message, .. } => d == "Invalid statement: "@ + message@,
        }
    }

    /// Line and column of the error, when it has a position.
    pub fn location(&self) -> (r: Option<(usize, usize)>)
        ensures
            r == self.spec_location(),
    {
        match self {
            ParseError::UnexpectedToken { line, col, .. } => Some((*line, *col)),
            ParseError::UnexpectedEof => None,
            ParseError::ExpectedToken { line, col, .. } => Some((*line, *col)),
            ParseError::ExpectedName { line, col, .. } => Some((*line, *col)),
            ParseError::InvalidStatement { line, col, .. } => Some((*line, *col)),
        }
    }

    /// The message of the error, without its position.
    pub fn detail(&self) -> (r: String)
        ensures
            self.is_detail(r@),
    {
        match self {
            ParseError::UnexpectedToken { token, .. } => {
                let y = yellow(token.as_str());
                framed_text("Unexpected token '", y, "'", Ghost(yellow_code()), Ghost(token@))
            },
            ParseError::UnexpectedEof => {
                let mut s = empty_string();
                push_str(&mut s, "Unexpected end of input");
                s
            },
            ParseError::ExpectedToken { message, .. } => message.clone(),
            ParseError::ExpectedName { keyword, .. } => {
                let y = yellow(keyword);
                framed_text("Expected name after '", y, "' keyword", Ghost(yellow_code()), Ghost(keyword@))
            },
            ParseError::InvalidStatement { message, .. } => {
                let mut s = empty_string();
                push_str(&mut s, "Invalid statement: ");
                push_str(&mut s, message.as_str());
                s
            },
        }
    }

    /// The error's message: what went wrong and, when known, where;
    /// without colours.
    pub open spec fn spec_message(self) -> Seq<char> {
        match self {
            ParseError::UnexpectedToken { token, line, col } =>
                "Unexpected token '"@ + token@ + "'"@ + at_pos(line, col),
            ParseError::UnexpectedEof => "Unexpected end of input"@,
            ParseError::ExpectedToken { message, line, col } => message@ + at_pos(line, col),
            ParseError::ExpectedName { keyword, line, col } =>
                "Expected name after '"@ + keyword@ + "' keyword"@ + at_pos(line, col),
            ParseError::InvalidStatement { message, line, col } =>
                "Invalid statement: "@ + message@ + at_pos(line, col),
        }
    }

    /// The error's message (see `spec_message`).
    pub fn message(&self) -> (r: String)
        ensures
            r@ == self.spec_message(),
    {
        let mut s = empty_string();
        match self {
            ParseError::UnexpectedToken { token, line, col } => {
                push_str(&mut s, "Unexpected token '");
                push_str(&mut s, token.as_str());
                push_str(&mut s, "'");
                push_at_pos(&mut s, *line, *col);
            },
            ParseError::UnexpectedEof => {
                push_str(&mut s, "Unexpected end of input");
            },
            ParseError::ExpectedToken { message, line, col } => {
                push_str(&mut s, message.as_str());
                push_at_pos(&mut s, *line, *col);
            },
            ParseError::ExpectedName { keyword, line, col } => {
                push_str(&mut s, "Expected name after '");
                push_str(&mut s, keyword);
                push_str(&mut s, "' keyword");
                push_at_pos(&mut s, *line, *col);
            },
            ParseError::InvalidStatement { message, line, col } => {
                push_str(&mut s, "Invalid statement: ");
                push_str(&mut s, message.as_str());
                push_at_pos(&mut s, *line, *col);
            },
        }
        s
    }


    /// Whether `r` is a report of the error as `report` writes it.
    pub open spec fn is_report(self, r: Seq<char>) -> bool {
        exists|p: Seq<char>, d: Seq<char>|
            shows(red_bold_code(), "Parse error"@, p) && self.is_detail(d) && match self.spec_location() {
                Some((line, col)) => exists|l: Seq<char>|
                    shows(black_on_green_code(), location_text(line, col), l)
                    && r == report_layout(p, d, Some(l)),
                None => r == report_layout(p, d, None),
            }
    }

    /// The full report of the error as it is written to the terminal:
    /// `Parse error` in bold red, the detail, and the position note when
    /// the error has a position.
    pub fn report(&self) -> (r: String)
        ensures
            self.is_report(r@),
    {
        let prefix = red_bold("Parse error");
        let detail = self.detail();
        let ghost (p, d) = (prefix@, detail@);
        match self.location() {
            Some((line, col)) => {
                let loc = location_note(line, col);
                let ghost l = loc@;
                let r = layout(prefix, detail, Some(loc));
                assert(shows(black_on_green_code(), location_text(line, col), l)
                    && r@ == report_layout(p, d, Some(l)));
                r
            },
            None => layout(prefix, detail, None),
        }
    }
}

impl ParseError {
    /// The detail without colours.
    pub open spec fn plain_detail(self) -> Seq<char> {
        match self {
            ParseError::UnexpectedToken { token, .. } => "Unexpected token '"@ + token@ + "'"@,
            ParseError::UnexpectedEof => "Unexpected end of input"@,
            ParseError::ExpectedToken { message, .. } => message@,
            ParseError::ExpectedName { keyword, .. } => "Expected name after '"@ + keyword@ + "' keyword"@,
            ParseError::InvalidStatement { message, .. } => "Invalid statement: "@ + message@,
        }
    }
}

/// The message is the detail without colours, followed by ` at L:C` when
/// the error has a position: the plain detail is what `detail` gives when
/// colouring is off, and a detail holding no escape character is the plain
/// one.
pub proof fn law_message_is_detail_at_position(e: ParseError, d: Seq<char>)
    ensures
        e.is_detail(e.plain_detail()),
        e.is_detail(d) && !d.contains(esc()) ==> d == e.plain_detail(),
        e.spec_message() == match e.spec_location() {
            Some((line, col)) => e.plain_detail() + at_pos(line, col),
            None => e.plain_detail(),
        },
{
    match e {
        ParseError::UnexpectedToken { token, .. } => {
            lemma_framed_plain_text("Unexpected token '"@, yellow_code(), token@, "'"@);
            if e.is_detail(d) && !d.contains(esc()) {
                lemma_framed_plain(d, "Unexpected token '"@, yellow_code(), token@, "'"@);
            }
        },
        ParseError::ExpectedName { keyword, .. } => {
            lemma_framed_plain_text("Expected name after '"@, yellow_code(), keyword@, "' keyword"@);
            if e.is_detail(d) && !d.contains(esc()) {
                lemma_framed_plain(d, "Expected name after '"@, yellow_code(), keyword@, "' keyword"@);
            }
        },
        _ => {},
    }
}

} // verus!
