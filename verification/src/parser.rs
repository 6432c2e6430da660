//! Turning tokens into statements.
pub mod expression;
pub mod grammar;
pub mod parser;
pub mod statement;
