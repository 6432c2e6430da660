//! Plain error texts: a red title, the message, and a position note.
use vstd::prelude::*;
use crate::errors::{location_note, location_text};
use crate::paint::{black_on_green_code, red, red_code, shows};
use crate::text::{empty_string, push_str};

verus! {

/// Builds the texts of errors.
pub struct Error;

/// `r` is an error text titled `kind`: the title and a colon in red, a
/// newline, the message, a newline, the position note, a newline.
pub open spec fn is_error_text(kind: Seq<char>, message: Seq<char>, line: usize, column: usize, r: Seq<char>) -> bool {
    exists|t: Seq<char>, l: Seq<char>|
        shows(red_code(), kind + ":"@, t) && shows(black_on_green_code(), location_text(line, column), l)
        && r == t + "\n"@ + message + "\n"@ + l + "\n"@
}

/// `r` is an error text titled `kind` without a position: the title and a
/// colon in red, a newline, the message.
pub open spec fn is_error_text_without_loc(kind: Seq<char>, message: Seq<char>, r: Seq<char>) -> bool {
    exists|t: Seq<char>| shows(red_code(), kind + ":"@, t) && r == t + "\n"@ + message
}

impl Error {
    fn title(error_type: &str) -> (r: String)
        ensures
            shows(red_code(), error_type@ + ":"@, r@),
    {
        let mut s = empty_string();
        push_str(&mut s, error_type);
        push_str(&mut s, ":");
        red(s.as_str())
    }

    fn create_error(error_type: &str, message: &str, line: usize, column: usize) -> (r: String)
        ensures
            is_error_text(error_type@, message@, line, column, r@),
    {
        let t = Self::title(error_type);
        let l = location_note(line, column);
        let mut s = empty_string();
        push_str(&mut s, t.as_str());
        push_str(&mut s, "\n");
        push_str(&mut s, message);
        push_str(&mut s, "\n");
        push_str(&mut s, l.as_str());
        push_str(&mut s, "\n");
        assert(s@ =~= t@ + "\n"@ + message@ + "\n"@ + l@ + "\n"@);
        s
    }

    fn create_error_without_loc(error_type: &str, message: &str) -> (r: String)
        ensures
            is_error_text_without_loc(error_type@, message@, r@),
    {
        let t = Self::title(error_type);
        let mut s = empty_string();
        push_str(&mut s, t.as_str());
        push_str(&mut s, "\n");
        push_str(&mut s, message);
        assert(s@ =~= t@ + "\n"@ + message@);
        s
    }

    /// A `SyntaxError` text.
    pub fn syntax_error(message: &str, line: usize, column: usize) -> (r: String)
        ensures
            is_error_text("SyntaxError"@, message@, line, column, r@),
    {
        Error::create_error("SyntaxError", message, line, column)
    }

    /// A `Lexical Error` text.
    pub fn lexical_error(message: &str, line: usize, column: usize) -> (r: String)
        ensures
            is_error_text("Lexical Error"@, message@, line, column, r@),
    {
        Error::create_error("Lexical Error", message, line, column)
    }

    /// A `Parse Error` text.
    pub fn parse_error(message: &str, line: usize, column: usize) -> (r: String)
        ensures
            is_error_text("Parse Error"@, message@, line, column, r@),
    {
        Error::create_error("Parse Error", message, line, column)
    }

    /// A `Runtime Error` text, without a position.
    pub fn runtime_error(message: &str) -> (r: String)
        ensures
            is_error_text_without_loc("Runtime Error"@, message@, r@),
    {
        Error::create_error_without_loc("Runtime Error", message)
    }

    /// A semantic error text; it is titled `Parse Error`.
    pub fn semantic_error(message: &str, line: usize, column: usize) -> (r: String)
        ensures
            is_error_text("Parse Error"@, message@, line, column, r@),
    {
        Error::create_error("Parse Error", message, line, column)
    }

    /// An `IO Error` text, without a position.
    pub fn io_error(message: &str) -> (r: String)
        ensures
            is_error_text_without_loc("IO Error"@, message@, r@),
    {
        Error::create_error_without_loc("IO Error", message)
    }
}

} // verus!
