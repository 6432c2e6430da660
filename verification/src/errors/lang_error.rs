//! The error of any stage.
use vstd::prelude::*;
use crate::errors::interpreter_error::InterpreterError;
use crate::errors::lex_error::LexError;
use crate::errors::parse_error::ParseError;

verus! {

/// An error of the lexer, the parser or the interpreter.
#[derive(Debug)]
pub enum LangError {
    Lex(LexError),
    Parse(ParseError),
    Interpreter(InterpreterError),
}

impl LangError {
    /// The message of the stage's error (see the `message` of each error
    /// type).
    pub fn message(&self) -> (r: String)
        ensures
            r@ == match self {
                LangError::Lex(e) => e.spec_message(),
                LangError::Parse(e) => e.spec_message(),
                LangError::Interpreter(e) => e.spec_message(),
            },
    {
        match self {
            LangError::Lex(e) => e.message(),
            LangError::Parse(e) => e.message(),
            LangError::Interpreter(e) => e.message(),
        }
    }


    /// The report of the stage's error (see the `report` of each error type).
    pub fn report(&self) -> (r: String)
        ensures
            match self {
                LangError::Lex(e) => e.is_report(r@),
                LangError::Parse(e) => e.is_report(r@),
                LangError::Interpreter(e) => e.is_report(r@),
            },
    {
        match self {
            LangError::Lex(e) => e.report(),
            LangError::Parse(e) => e.report(),
            LangError::Interpreter(e) => e.report(),
        }
    }
}

impl From<LexError> for LangError {
    fn from(e: LexError) -> (r: LangError) {
        LangError::Lex(e)
    }
}

impl vstd::std_specs::convert::FromSpecImpl<LexError> for LangError {
    open spec fn obeys_from_spec() -> bool {
        true
    }

    open spec fn from_spec(e: LexError) -> LangError {
        LangError::Lex(e)
    }
}

impl From<ParseError> for LangError {
    fn from(e: ParseError) -> (r: LangError) {
        LangError::Parse(e)
    }
}

impl vstd::std_specs::convert::FromSpecImpl<ParseError> for LangError {
    open spec fn obeys_from_spec() -> bool {
        true
    }

    open spec fn from_spec(e: ParseError) -> LangError {
        LangError::Parse(e)
    }
}

impl From<InterpreterError> for LangError {
    fn from(e: InterpreterError) -> (r: LangError) {
        LangError::Interpreter(e)
    }
}

impl vstd::std_specs::convert::FromSpecImpl<InterpreterError> for LangError {
    open spec fn obeys_from_spec() -> bool {
        true
    }

    open spec fn from_spec(e: InterpreterError) -> LangError {
        LangError::Interpreter(e)
    }
}

} // verus!
