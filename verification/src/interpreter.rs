//! What the interpreter needs to run a program: the resolver, the store of
//! environments, functions, classes and instances, and the signals that
//! end a statement early.
pub mod class;
pub mod environment;
pub mod function;
pub mod resolver;
pub mod runtime;
pub mod signal;
