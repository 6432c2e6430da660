//! Turning source text into tokens.
pub mod lexer;
pub mod token;
