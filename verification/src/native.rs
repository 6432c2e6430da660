//! Built-in functions of the language.
pub mod types;
